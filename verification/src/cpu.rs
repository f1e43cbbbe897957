//! The processor: registers, flags, program counter, stack pointer,
//! privilege, instruction quota; decode and execute; trap dispatch.
//!
//! Every executable step is specified against a functional model: spec
//! functions that map the (processor, bus) state before an operation to the
//! state after it, composed exactly as the executable code composes.

use vstd::prelude::*;
use vstd::wrapping::u16_specs;
use vstd::wrapping::u8_specs as u8_wrap_specs;
use crate::bus::{
    Bus, BusView, read_result, view_after_read, write_result, view_after_write, writable_result,
};
use crate::isa::{
    header_word, opcode_of, mode_of, regfield_of, reg_a, reg_b, OP_NOP, OP_MOV, OP_ADD, OP_SUB,
    OP_MUL, OP_DIV, OP_MOD, OP_AND, OP_OR, OP_XOR, OP_NOT, OP_JMP, OP_JZ, OP_JC, OP_JO, OP_JS,
    OP_JNZ, OP_JG, OP_JL, OP_CMP, OP_PUSH, OP_POP, OP_CALL, OP_RET, OP_SHL, OP_SHR, OP_SAR,
    OP_SSP, OP_SKIP, OP_SYS, OP_KRET, OP_GSP, OP_PNK, OP_DBG, OP_SHRW, OP_GFLS, OP_SFLS, OP_HLT,
};

verus! {

/// The kernel-data cell that receives the exit cause byte on a trap.
pub const TRAP_CAUSE_ADDR: u16 = 0x125A;

/// The four arithmetic flags.
#[derive(PartialEq, Eq, Structural, Clone, Copy, Debug)]
pub struct Flags {
    pub carry: bool,
    pub sign: bool,
    pub zero: bool,
    pub overflow: bool,
}

/// The intent of a memory touch.
#[derive(PartialEq, Eq, Structural, Clone, Copy, Debug)]
pub enum Access {
    R,
    W,
    X,
}

/// The privilege mode: kernel or user.
#[derive(PartialEq, Eq, Structural, Clone, Copy, Debug)]
pub enum CPUMode {
    K,
    U,
}

/// What went wrong during an instruction.
#[derive(PartialEq, Eq, Structural, Clone, Copy, Debug)]
pub enum Fault {
    IllegalInstruction,
    IllegalMemAccess,
    UnknownAction,
}

/// Why an instruction handed control back to the kernel.
#[derive(PartialEq, Eq, Structural, Clone, Copy, Debug)]
pub enum CPUExit {
    NoExit,
    Timer,
    Halt,
    Syscall,
    Fault(Fault),
}

/// Where a decoded instruction writes its result: a register index below 8,
/// or an already write-checked memory address.
#[derive(PartialEq, Eq, Structural, Clone, Copy, Debug)]
pub enum Dest {
    Reg(u8),
    Mem(u16),
}

/// The processor state.
pub struct Cpu {
    pub regs: [u8; 8],
    pub flags: Flags,
    pub pc: u16,
    pub sp: u16,
    pub halted: bool,
    pub mode: CPUMode,
    pub access: Access,
    pub instruction_ctr: u16,
    pub instruction_lim: u16,
    pub kernel_trap_address: u16,
}

/// The abstract processor state.
#[verifier::ext_equal]
pub ghost struct CpuView {
    pub regs: Seq<u8>,
    pub flags: Flags,
    pub pc: u16,
    pub sp: u16,
    pub halted: bool,
    pub mode: CPUMode,
    pub access: Access,
    pub instruction_ctr: u16,
    pub instruction_lim: u16,
    pub kernel_trap_address: u16,
}

impl View for Cpu {
    type V = CpuView;

    open spec fn view(&self) -> CpuView {
        CpuView {
            regs: self.regs@,
            flags: self.flags,
            pc: self.pc,
            sp: self.sp,
            halted: self.halted,
            mode: self.mode,
            access: self.access,
            instruction_ctr: self.instruction_ctr,
            instruction_lim: self.instruction_lim,
            kernel_trap_address: self.kernel_trap_address,
        }
    }
}

// ---------------------------------------------------------------------------
// Flag semantics
// ---------------------------------------------------------------------------
/// Bit 7 of a byte: its sign under two's complement.
pub open spec fn sign8(x: u8) -> bool {
    x >= 128
}

/// The flags after `add`: carry out, zero and sign of the result, and
/// signed overflow (the operands agree in sign, the result does not).
pub open spec fn add_flags(a: u8, b: u8, result: u8, carry: bool) -> Flags {
    Flags {
        carry,
        zero: result == 0,
        sign: sign8(result),
        overflow: (sign8(a) == sign8(b)) && (sign8(result) != sign8(a)),
    }
}

/// The flags after `sub` and `cmp`: borrow, zero and sign of the result,
/// and signed overflow (the operands differ in sign, the result differs
/// from the minuend).
pub open spec fn sub_flags(a: u8, b: u8, result: u8, borrow: bool) -> Flags {
    Flags {
        carry: borrow,
        zero: result == 0,
        sign: sign8(result),
        overflow: (sign8(a) != sign8(b)) && (sign8(result) != sign8(a)),
    }
}

/// The flags after `mul`: carry and overflow both record the unsigned
/// overflow of the product.
pub open spec fn mul_flags(result: u8, overflow: bool) -> Flags {
    Flags { carry: overflow, zero: result == 0, sign: sign8(result), overflow }
}

/// The flags after `div` and `mod`: carry and overflow clear.
pub open spec fn div_flags(result: u8) -> Flags {
    Flags { carry: false, zero: result == 0, sign: sign8(result), overflow: false }
}

// ---------------------------------------------------------------------------
// Micro-operations of the model: checked reads and writes, the stack, and
// operand fetches, each as a function from state to state.
// ---------------------------------------------------------------------------
/// A checked read with intent `R`. On success the previous intent is
/// restored; on a fault the intent stays `R`.
pub open spec fn mread_s(c: CpuView, b: BusView, addr: u16) -> (CpuView, BusView, Result<
    u8,
    CPUExit,
>) {
    let r = read_result(b, addr, c.mode, Access::R);
    let b2 = view_after_read(b, addr, c.mode, Access::R);
    if r is Ok {
        (c, b2, r)
    } else {
        (CpuView { access: Access::R, ..c }, b2, r)
    }
}

/// A checked write with intent `W`; the intent stays `W` afterwards.
pub open spec fn mwrite_s(c: CpuView, b: BusView, addr: u16, val: u8) -> (
    CpuView,
    BusView,
    Result<(), CPUExit>,
) {
    (
        CpuView { access: Access::W, ..c },
        view_after_write(b, addr, val, c.mode, Access::W),
        write_result(b, addr, c.mode, Access::W),
    )
}

/// An operand byte: a checked read at `pc + 2`; a successful one sets the
/// intent back to `X`.
pub open spec fn operand_s(c: CpuView, b: BusView) -> (CpuView, BusView, Result<u8, CPUExit>) {
    let (c2, b2, r) = mread_s(c, b, u16_specs::wrapping_add(c.pc, 2));
    if r is Ok {
        (CpuView { access: Access::X, ..c2 }, b2, r)
    } else {
        (c2, b2, r)
    }
}

/// A push: write at `sp`, then move `sp` down one.
pub open spec fn push_s(c: CpuView, b: BusView, val: u8) -> (CpuView, BusView, Result<
    (),
    CPUExit,
>) {
    let (c2, b2, r) = mwrite_s(c, b, c.sp, val);
    if r is Ok {
        (CpuView { sp: u16_specs::wrapping_sub(c2.sp, 1), ..c2 }, b2, Ok(()))
    } else {
        (c2, b2, r)
    }
}

/// A pop: move `sp` up one, then read at the new `sp`.
pub open spec fn pop_s(c: CpuView, b: BusView) -> (CpuView, BusView, Result<u8, CPUExit>) {
    let c1 = CpuView { sp: u16_specs::wrapping_add(c.sp, 1), ..c };
    mread_s(c1, b, c1.sp)
}

/// Advancing the program counter, wrapping at the top of memory.
pub open spec fn pc_plus(c: CpuView, n: u16) -> CpuView {
    CpuView { pc: u16_specs::wrapping_add(c.pc, n), ..c }
}


// ---------------------------------------------------------------------------
// Operand resolution: each addressing mode names a source value and a
// write-back destination, and advances the program counter by the length
// of the instruction.
// ---------------------------------------------------------------------------
/// The 16-bit address held in the register pair starting at `i`: the high
/// byte in register `i`, the low byte in register `i + 1`.
pub open spec fn pair_addr(c: CpuView, i: int) -> u16 {
    (c.regs[i] * 256 + c.regs[i + 1]) as u16
}

/// Writing a byte to a resolved destination. A memory destination was
/// write-checked when it was resolved, so the store is unconditional.
pub open spec fn store_s(c: CpuView, b: BusView, dest: Dest, val: u8) -> (CpuView, BusView) {
    match dest {
        Dest::Reg(i) => (CpuView { regs: c.regs.update(i as int, val), ..c }, b),
        Dest::Mem(a) => (c, BusView { ram: b.ram.update(a as int, val), ..b }),
    }
}

/// Resolution of a two-operand instruction: the destination's current
/// value, the source value, and the destination. A register pair starting
/// at register 7 has no second half and faults.
pub open spec fn double_val_s(c: CpuView, b: BusView, mode: u16, reg: u16) -> (
    CpuView,
    BusView,
    Result<(u8, u8, Dest), CPUExit>,
) {
    let ra = reg_a(reg as int);
    let rb = reg_b(reg as int);
    if mode == 0 {
        // register to register
        (pc_plus(c, 2), b, Ok((c.regs[ra], c.regs[rb], Dest::Reg(ra as u8))))
    } else if mode == 1 {
        // memory at the src register pair to register
        if rb == 7 {
            (c, b, Err(CPUExit::Fault(Fault::UnknownAction)))
        } else {
            let m = pair_addr(c, rb);
            let (c2, b2, r) = mread_s(c, b, m);
            match r {
                Ok(v) => (pc_plus(c2, 2), b2, Ok((c.regs[ra], v, Dest::Reg(ra as u8)))),
                Err(e) => (c2, b2, Err(e)),
            }
        }
    } else if mode == 2 {
        // register to memory at the dest register pair
        if ra == 7 {
            (c, b, Err(CPUExit::Fault(Fault::UnknownAction)))
        } else {
            let m = pair_addr(c, ra);
            let c2 = pc_plus(c, 2);
            match writable_result(b, m, c.mode) {
                Ok(v) => (c2, b, Ok((v, c.regs[rb], Dest::Mem(m)))),
                Err(e) => (c2, b, Err(e)),
            }
        }
    } else if mode == 3 {
        // immediate byte to register
        let (c2, b2, r) = operand_s(c, b);
        match r {
            Ok(i2) => (pc_plus(c2, 3), b2, Ok((c.regs[ra], i2, Dest::Reg(ra as u8)))),
            Err(e) => (c2, b2, Err(e)),
        }
    } else if mode == 4 {
        // memory at a 16-bit immediate address to register
        let (c1, b1, r1) = operand_s(c, b);
        match r1 {
            Err(e) => (c1, b1, Err(e)),
            Ok(i21) => {
                let (c2, b2, r2) = operand_s(pc_plus(c1, 1), b1);
                match r2 {
                    Err(e) => (c2, b2, Err(e)),
                    Ok(i22) => {
                        let m = (i21 * 256 + i22) as u16;
                        let (c3, b3, r3) = mread_s(pc_plus(c2, 1), b2, m);
                        match r3 {
                            Err(e) => (c3, b3, Err(e)),
                            Ok(v) => (
                                pc_plus(c3, 2),
                                b3,
                                Ok((c.regs[ra], v, Dest::Reg(ra as u8))),
                            ),
                        }
                    },
                }
            },
        }
    } else if mode == 5 {
        // register to memory at a 16-bit immediate address
        let (c1, b1, r1) = operand_s(c, b);
        match r1 {
            Err(e) => (c1, b1, Err(e)),
            Ok(i11) => {
                let (c2, b2, r2) = operand_s(pc_plus(c1, 1), b1);
                match r2 {
                    Err(e) => (c2, b2, Err(e)),
                    Ok(i12) => {
                        let m = (i11 * 256 + i12) as u16;
                        let c3 = pc_plus(pc_plus(c2, 1), 2);
                        match writable_result(b2, m, c.mode) {
                            Err(e) => (c3, b2, Err(e)),
                            Ok(v) => (c3, b2, Ok((v, c.regs[rb], Dest::Mem(m)))),
                        }
                    },
                }
            },
        }
    } else {
        (c, b, Err(CPUExit::Fault(Fault::UnknownAction)))
    }
}

/// Resolution of a one-operand value: register, memory at a register pair,
/// an immediate byte, or memory at an immediate address.
pub open spec fn single_val_s(c: CpuView, b: BusView, mode: u16, reg: u16) -> (
    CpuView,
    BusView,
    Result<u8, CPUExit>,
) {
    let ra = reg_a(reg as int);
    if mode == 0 {
        (pc_plus(c, 2), b, Ok(c.regs[ra]))
    } else if mode == 1 {
        if ra == 7 {
            (c, b, Err(CPUExit::Fault(Fault::UnknownAction)))
        } else {
            let m = pair_addr(c, ra);
            let (c2, b2, r) = mread_s(c, b, m);
            match r {
                Ok(v) => (pc_plus(c2, 2), b2, Ok(v)),
                Err(e) => (c2, b2, Err(e)),
            }
        }
    } else if mode == 2 {
        let (c2, b2, r) = operand_s(c, b);
        match r {
            Ok(v) => (pc_plus(pc_plus(c2, 1), 2), b2, Ok(v)),
            Err(e) => (c2, b2, Err(e)),
        }
    } else if mode == 3 {
        let (c1, b1, r1) = operand_s(c, b);
        match r1 {
            Err(e) => (c1, b1, Err(e)),
            Ok(i1) => {
                let (c2, b2, r2) = operand_s(pc_plus(c1, 1), b1);
                match r2 {
                    Err(e) => (c2, b2, Err(e)),
                    Ok(i2) => {
                        let m = (i1 * 256 + i2) as u16;
                        let (c3, b3, r3) = mread_s(pc_plus(c2, 1), b2, m);
                        match r3 {
                            Err(e) => (c3, b3, Err(e)),
                            Ok(v) => (pc_plus(c3, 2), b3, Ok(v)),
                        }
                    },
                }
            },
        }
    } else {
        (c, b, Err(CPUExit::Fault(Fault::UnknownAction)))
    }
}

/// Resolution of a one-operand 16-bit address: the register pair itself, a
/// big-endian word read at the pair, a 16-bit immediate, or a word read at
/// an immediate address.
pub open spec fn single_val_addr_s(c: CpuView, b: BusView, mode: u16, reg: u16) -> (
    CpuView,
    BusView,
    Result<u16, CPUExit>,
) {
    let ra = reg_a(reg as int);
    if mode == 0 {
        if ra == 7 {
            (c, b, Err(CPUExit::Fault(Fault::UnknownAction)))
        } else {
            (pc_plus(c, 2), b, Ok(pair_addr(c, ra)))
        }
    } else if mode == 1 {
        if ra == 7 {
            (c, b, Err(CPUExit::Fault(Fault::UnknownAction)))
        } else {
            let m = pair_addr(c, ra);
            let (c1, b1, r1) = mread_s(c, b, m);
            match r1 {
                Err(e) => (c1, b1, Err(e)),
                Ok(v1) => {
                    let (c2, b2, r2) = mread_s(c1, b1, u16_specs::wrapping_add(m, 1));
                    match r2 {
                        Err(e) => (c2, b2, Err(e)),
                        Ok(v2) => (pc_plus(c2, 2), b2, Ok((v1 * 256 + v2) as u16)),
                    }
                },
            }
        }
    } else if mode == 2 {
        let (c1, b1, r1) = operand_s(c, b);
        match r1 {
            Err(e) => (c1, b1, Err(e)),
            Ok(i1) => {
                let (c2, b2, r2) = operand_s(pc_plus(c1, 1), b1);
                match r2 {
                    Err(e) => (c2, b2, Err(e)),
                    Ok(i2) => (pc_plus(pc_plus(c2, 1), 2), b2, Ok((i1 * 256 + i2) as u16)),
                }
            },
        }
    } else if mode == 3 {
        let (c1, b1, r1) = operand_s(c, b);
        match r1 {
            Err(e) => (c1, b1, Err(e)),
            Ok(i1) => {
                let (c2, b2, r2) = operand_s(pc_plus(c1, 1), b1);
                match r2 {
                    Err(e) => (c2, b2, Err(e)),
                    Ok(i2) => {
                        let m = (i1 * 256 + i2) as u16;
                        let (c3, b3, r3) = mread_s(pc_plus(c2, 1), b2, m);
                        match r3 {
                            Err(e) => (c3, b3, Err(e)),
                            Ok(v1) => {
                                let (c4, b4, r4) = mread_s(c3, b3, u16_specs::wrapping_add(m, 1));
                                match r4 {
                                    Err(e) => (c4, b4, Err(e)),
                                    Ok(v2) => (pc_plus(c4, 2), b4, Ok((v1 * 256 + v2) as u16)),
                                }
                            },
                        }
                    },
                }
            },
        }
    } else {
        (c, b, Err(CPUExit::Fault(Fault::UnknownAction)))
    }
}


// ---------------------------------------------------------------------------
// Pure value operations
// ---------------------------------------------------------------------------
/// Logical shift right: zero for shifts of eight or more.
pub open spec fn shr8(a: u8, k: u8) -> u8 {
    if k < 8 {
        a >> k
    } else {
        0u8
    }
}

/// Rotation right by `k mod 8` bit positions.
pub open spec fn rot_right8(a: u8, k: u8) -> u8 {
    let s = k % 8;
    if s == 0 {
        a
    } else {
        (a >> s) | ((a << (8 - s)) as u8)
    }
}

/// Arithmetic shift right by one: the sign bit is kept.
pub open spec fn sar8(a: u8) -> u8 {
    if a >= 128 {
        (a / 2 + 128) as u8
    } else {
        a / 2
    }
}

// ---------------------------------------------------------------------------
// One spec function per opcode: the state after executing it with the given
// mode and register fields, from just past the decode of the header.
// ---------------------------------------------------------------------------
/// The common shape of `mov` and the arithmetic and logical instructions:
/// resolve the operands, apply a pure function, write the result back, and
/// set the flags the opcode calls for.
pub open spec fn op_mov_s(c: CpuView, b: BusView, mode: u16, reg: u16) -> (CpuView, BusView, Result<
    (),
    CPUExit,
>) {
    let (c1, b1, r) = double_val_s(c, b, mode, reg);
    match r {
        Err(e) => (c1, b1, Err(e)),
        Ok((a, v, d)) => {
            let (c2, b2) = store_s(c1, b1, d, v);
            (c2, b2, Ok(()))
        },
    }
}

pub open spec fn op_add_s(c: CpuView, b: BusView, mode: u16, reg: u16) -> (CpuView, BusView, Result<
    (),
    CPUExit,
>) {
    let (c1, b1, r) = double_val_s(c, b, mode, reg);
    match r {
        Err(e) => (c1, b1, Err(e)),
        Ok((a, v, d)) => {
            let result = u8_wrap_specs::wrapping_add(a, v);
            let carry = a + v >= 256;
            let (c2, b2) = store_s(c1, b1, d, result);
            (CpuView { flags: add_flags(a, v, result, carry), ..c2 }, b2, Ok(()))
        },
    }
}

pub open spec fn op_sub_s(c: CpuView, b: BusView, mode: u16, reg: u16) -> (CpuView, BusView, Result<
    (),
    CPUExit,
>) {
    let (c1, b1, r) = double_val_s(c, b, mode, reg);
    match r {
        Err(e) => (c1, b1, Err(e)),
        Ok((a, v, d)) => {
            let result = u8_wrap_specs::wrapping_sub(a, v);
            let borrow = a < v;
            let (c2, b2) = store_s(c1, b1, d, result);
            (CpuView { flags: sub_flags(a, v, result, borrow), ..c2 }, b2, Ok(()))
        },
    }
}

pub open spec fn op_mul_s(c: CpuView, b: BusView, mode: u16, reg: u16) -> (CpuView, BusView, Result<
    (),
    CPUExit,
>) {
    let (c1, b1, r) = double_val_s(c, b, mode, reg);
    match r {
        Err(e) => (c1, b1, Err(e)),
        Ok((a, v, d)) => {
            let result = u8_wrap_specs::wrapping_mul(a, v);
            let overflow = a * v >= 256;
            let (c2, b2) = store_s(c1, b1, d, result);
            (CpuView { flags: mul_flags(result, overflow), ..c2 }, b2, Ok(()))
        },
    }
}

/// Division; a zero divisor faults after the operands have been resolved.
pub open spec fn op_div_s(c: CpuView, b: BusView, mode: u16, reg: u16) -> (CpuView, BusView, Result<
    (),
    CPUExit,
>) {
    let (c1, b1, r) = double_val_s(c, b, mode, reg);
    match r {
        Err(e) => (c1, b1, Err(e)),
        Ok((a, v, d)) => {
            if v == 0 {
                (c1, b1, Err(CPUExit::Fault(Fault::UnknownAction)))
            } else {
                let result = (a / v) as u8;
                let (c2, b2) = store_s(c1, b1, d, result);
                (CpuView { flags: div_flags(result), ..c2 }, b2, Ok(()))
            }
        },
    }
}

/// Remainder; a zero divisor faults after the operands have been resolved.
pub open spec fn op_mod_s(c: CpuView, b: BusView, mode: u16, reg: u16) -> (CpuView, BusView, Result<
    (),
    CPUExit,
>) {
    let (c1, b1, r) = double_val_s(c, b, mode, reg);
    match r {
        Err(e) => (c1, b1, Err(e)),
        Ok((a, v, d)) => {
            if v == 0 {
                (c1, b1, Err(CPUExit::Fault(Fault::UnknownAction)))
            } else {
                let result = (a % v) as u8;
                let (c2, b2) = store_s(c1, b1, d, result);
                (CpuView { flags: div_flags(result), ..c2 }, b2, Ok(()))
            }
        },
    }
}

/// The bitwise instructions leave the flags unchanged.
pub open spec fn op_bitwise_s(
    c: CpuView,
    b: BusView,
    mode: u16,
    reg: u16,
    op: u16,
) -> (CpuView, BusView, Result<(), CPUExit>) {
    let (c1, b1, r) = double_val_s(c, b, mode, reg);
    match r {
        Err(e) => (c1, b1, Err(e)),
        Ok((a, v, d)) => {
            let result = if op == OP_AND {
                a & v
            } else if op == OP_OR {
                a | v
            } else if op == OP_XOR {
                a ^ v
            } else if op == OP_NOT {
                !v
            } else if op == OP_SHR {
                shr8(a, v)
            } else {
                rot_right8(a, v)
            };
            let (c2, b2) = store_s(c1, b1, d, result);
            (c2, b2, Ok(()))
        },
    }
}

/// Compare: the flags of a subtraction, with no write-back.
pub open spec fn op_cmp_s(c: CpuView, b: BusView, mode: u16, reg: u16) -> (CpuView, BusView, Result<
    (),
    CPUExit,
>) {
    let (c1, b1, r) = double_val_s(c, b, mode, reg);
    match r {
        Err(e) => (c1, b1, Err(e)),
        Ok((a, v, d)) => {
            let result = u8_wrap_specs::wrapping_sub(a, v);
            let borrow = a < v;
            (CpuView { flags: sub_flags(a, v, result, borrow), ..c1 }, b1, Ok(()))
        },
    }
}

/// Jump: the program counter is set to the operand target.
pub open spec fn op_j_s(c: CpuView, b: BusView, mode: u16, reg: u16) -> (CpuView, BusView, Result<
    (),
    CPUExit,
>) {
    let ra = reg_a(reg as int);
    if mode == 0 {
        if ra == 7 {
            (c, b, Err(CPUExit::Fault(Fault::UnknownAction)))
        } else {
            (CpuView { pc: pair_addr(c, ra), ..c }, b, Ok(()))
        }
    } else if mode == 1 {
        if ra == 7 {
            (c, b, Err(CPUExit::Fault(Fault::UnknownAction)))
        } else {
            let m = pair_addr(c, ra);
            let (c1, b1, r1) = mread_s(c, b, m);
            match r1 {
                Err(e) => (c1, b1, Err(e)),
                Ok(v1) => {
                    let (c2, b2, r2) = mread_s(c1, b1, u16_specs::wrapping_add(m, 1));
                    match r2 {
                        Err(e) => (c2, b2, Err(e)),
                        Ok(v2) => (CpuView { pc: (v1 * 256 + v2) as u16, ..c2 }, b2, Ok(())),
                    }
                },
            }
        }
    } else if mode == 2 {
        let (c1, b1, r1) = operand_s(c, b);
        match r1 {
            Err(e) => (c1, b1, Err(e)),
            Ok(i1) => {
                let (c2, b2, r2) = operand_s(pc_plus(c1, 1), b1);
                match r2 {
                    Err(e) => (c2, b2, Err(e)),
                    Ok(i2) => (CpuView { pc: (i1 * 256 + i2) as u16, ..c2 }, b2, Ok(())),
                }
            },
        }
    } else {
        (c, b, Err(CPUExit::Fault(Fault::UnknownAction)))
    }
}

/// A conditional jump: the jump when the condition holds, otherwise the
/// program counter advances past the instruction.
pub open spec fn jump_cond_s(c: CpuView, b: BusView, mode: u16, reg: u16, taken: bool) -> (
    CpuView,
    BusView,
    Result<(), CPUExit>,
) {
    if taken {
        op_j_s(c, b, mode, reg)
    } else {
        if mode == 0 || mode == 1 {
            (pc_plus(c, 2), b, Ok(()))
        } else if mode == 2 {
            (pc_plus(c, 4), b, Ok(()))
        } else {
            (c, b, Err(CPUExit::Fault(Fault::UnknownAction)))
        }
    }
}

pub open spec fn op_push_op_s(c: CpuView, b: BusView, mode: u16, reg: u16) -> (
    CpuView,
    BusView,
    Result<(), CPUExit>,
) {
    let (c1, b1, r) = single_val_s(c, b, mode, reg);
    match r {
        Err(e) => (c1, b1, Err(e)),
        Ok(v) => push_s(c1, b1, v),
    }
}

pub open spec fn op_pop_op_s(c: CpuView, b: BusView, mode: u16, reg: u16) -> (
    CpuView,
    BusView,
    Result<(), CPUExit>,
) {
    let ra = reg_a(reg as int);
    if mode == 0 {
        let (c1, b1, r) = pop_s(c, b);
        match r {
            Err(e) => (c1, b1, Err(e)),
            Ok(v) => (pc_plus(CpuView { regs: c1.regs.update(ra, v), ..c1 }, 2), b1, Ok(())),
        }
    } else if mode == 1 {
        if ra == 7 {
            (c, b, Err(CPUExit::Fault(Fault::UnknownAction)))
        } else {
            let m = pair_addr(c, ra);
            let (c1, b1, r) = pop_s(c, b);
            match r {
                Err(e) => (c1, b1, Err(e)),
                Ok(v) => {
                    let (c2, b2, r2) = mwrite_s(c1, b1, m, v);
                    match r2 {
                        Err(e) => (c2, b2, Err(e)),
                        Ok(()) => (pc_plus(c2, 2), b2, Ok(())),
                    }
                },
            }
        }
    } else {
        (c, b, Err(CPUExit::Fault(Fault::UnknownAction)))
    }
}

/// Call: push the address of the following instruction, high byte first,
/// then jump.
pub open spec fn op_call_s(c: CpuView, b: BusView, mode: u16, reg: u16) -> (
    CpuView,
    BusView,
    Result<(), CPUExit>,
) {
    if mode == 0 || mode == 1 || mode == 2 {
        let len: u16 = if mode == 2 {
            4
        } else {
            2
        };
        let pos = u16_specs::wrapping_add(c.pc, len);
        let p1 = (pos / 256) as u8;
        let p2 = (pos % 256) as u8;
        let (c1, b1, r1) = push_s(c, b, p1);
        match r1 {
            Err(e) => (c1, b1, Err(e)),
            Ok(()) => {
                let (c2, b2, r2) = push_s(c1, b1, p2);
                match r2 {
                    Err(e) => (c2, b2, Err(e)),
                    Ok(()) => op_j_s(c2, b2, mode, reg),
                }
            },
        }
    } else {
        (c, b, Err(CPUExit::Fault(Fault::UnknownAction)))
    }
}

/// Return: pop the low byte, then the high byte.
pub open spec fn op_ret_s(c: CpuView, b: BusView) -> (CpuView, BusView, Result<(), CPUExit>) {
    let (c1, b1, r1) = pop_s(c, b);
    match r1 {
        Err(e) => (c1, b1, Err(e)),
        Ok(m2) => {
            let (c2, b2, r2) = pop_s(c1, b1);
            match r2 {
                Err(e) => (c2, b2, Err(e)),
                Ok(m1) => (CpuView { pc: (m1 * 256 + m2) as u16, ..c2 }, b2, Ok(())),
            }
        },
    }
}

/// System call: the program counter advances one byte, then the trap.
pub open spec fn op_sys_s(c: CpuView, b: BusView) -> (CpuView, BusView, Result<(), CPUExit>) {
    (pc_plus(c, 1), b, Err(CPUExit::Syscall))
}

/// Kernel return: pop the program counter (inverse order of the trap
/// save: the high byte sits on top), drop to user mode, reset the intent
/// to execute.
pub open spec fn op_kret_s(c: CpuView, b: BusView) -> (CpuView, BusView, Result<(), CPUExit>) {
    let (c1, b1, r1) = pop_s(c, b);
    match r1 {
        Err(e) => (c1, b1, Err(e)),
        Ok(pc1) => {
            let (c2, b2, r2) = pop_s(c1, b1);
            match r2 {
                Err(e) => (c2, b2, Err(e)),
                Ok(pc2) => (
                    CpuView {
                        pc: (pc1 * 256 + pc2) as u16,
                        mode: CPUMode::U,
                        access: Access::X,
                        ..c2
                    },
                    b2,
                    Ok(()),
                ),
            }
        },
    }
}

/// Shift left by one, in a register or in memory.
pub open spec fn op_shl_s(c: CpuView, b: BusView, mode: u16, reg: u16) -> (CpuView, BusView, Result<
    (),
    CPUExit,
>) {
    let ra = reg_a(reg as int);
    if mode == 0 {
        let v = c.regs[ra];
        (pc_plus(CpuView { regs: c.regs.update(ra, (v << 1) as u8), ..c }, 2), b, Ok(()))
    } else if mode == 1 {
        if ra == 7 {
            (c, b, Err(CPUExit::Fault(Fault::UnknownAction)))
        } else {
            let m = pair_addr(c, ra);
            let (c1, b1, r1) = mread_s(c, b, m);
            match r1 {
                Err(e) => (c1, b1, Err(e)),
                Ok(v) => {
                    let (c2, b2, r2) = mwrite_s(c1, b1, m, (v << 1) as u8);
                    match r2 {
                        Err(e) => (c2, b2, Err(e)),
                        Ok(()) => (pc_plus(c2, 2), b2, Ok(())),
                    }
                },
            }
        }
    } else {
        (c, b, Err(CPUExit::Fault(Fault::UnknownAction)))
    }
}

/// Arithmetic shift right by one, in a register or in memory.
pub open spec fn op_sar_s(c: CpuView, b: BusView, mode: u16, reg: u16) -> (CpuView, BusView, Result<
    (),
    CPUExit,
>) {
    let ra = reg_a(reg as int);
    if mode == 0 {
        let v = c.regs[ra];
        (pc_plus(CpuView { regs: c.regs.update(ra, sar8(v)), ..c }, 2), b, Ok(()))
    } else if mode == 1 {
        if ra == 7 {
            (c, b, Err(CPUExit::Fault(Fault::UnknownAction)))
        } else {
            let m = pair_addr(c, ra);
            let (c1, b1, r1) = mread_s(c, b, m);
            match r1 {
                Err(e) => (c1, b1, Err(e)),
                Ok(v) => {
                    let (c2, b2, r2) = mwrite_s(c1, b1, m, sar8(v));
                    match r2 {
                        Err(e) => (c2, b2, Err(e)),
                        Ok(()) => (pc_plus(c2, 2), b2, Ok(())),
                    }
                },
            }
        }
    } else {
        (c, b, Err(CPUExit::Fault(Fault::UnknownAction)))
    }
}

/// Set the stack pointer to the operand address (kernel only; the privilege
/// is checked at decode).
pub open spec fn op_ssp_s(c: CpuView, b: BusView, mode: u16, reg: u16) -> (CpuView, BusView, Result<
    (),
    CPUExit,
>) {
    let (c1, b1, r) = single_val_addr_s(c, b, mode, reg);
    match r {
        Err(e) => (c1, b1, Err(e)),
        Ok(addr) => (CpuView { sp: addr, ..c1 }, b1, Ok(())),
    }
}

/// Skip: advance the program counter past the instruction and then by the
/// operand value.
pub open spec fn op_skip_s(c: CpuView, b: BusView, mode: u16, reg: u16) -> (
    CpuView,
    BusView,
    Result<(), CPUExit>,
) {
    let ra = reg_a(reg as int);
    if mode == 0 {
        (pc_plus(c, (2 + c.regs[ra]) as u16), b, Ok(()))
    } else if mode == 1 {
        if ra == 7 {
            (c, b, Err(CPUExit::Fault(Fault::UnknownAction)))
        } else {
            let m = pair_addr(c, ra);
            let (c1, b1, r1) = mread_s(c, b, m);
            match r1 {
                Err(e) => (c1, b1, Err(e)),
                Ok(v) => (pc_plus(c1, (2 + v) as u16), b1, Ok(())),
            }
        }
    } else if mode == 2 {
        let (c1, b1, r1) = operand_s(c, b);
        match r1 {
            Err(e) => (c1, b1, Err(e)),
            Ok(i) => (pc_plus(c1, (3 + i) as u16), b1, Ok(())),
        }
    } else {
        (c, b, Err(CPUExit::Fault(Fault::UnknownAction)))
    }
}

/// Store the stack pointer, high byte first, to registers or to memory.
pub open spec fn op_gsp_s(c: CpuView, b: BusView, mode: u16, reg: u16) -> (CpuView, BusView, Result<
    (),
    CPUExit,
>) {
    let ra = reg_a(reg as int);
    let s1 = (c.sp / 256) as u8;
    let s2 = (c.sp % 256) as u8;
    if mode == 0 {
        if ra == 7 {
            (c, b, Err(CPUExit::Fault(Fault::UnknownAction)))
        } else {
            (pc_plus(CpuView { regs: c.regs.update(ra, s1).update(ra + 1, s2), ..c }, 2), b, Ok(()))
        }
    } else if mode == 1 {
        if ra == 7 {
            (c, b, Err(CPUExit::Fault(Fault::UnknownAction)))
        } else {
            let m = pair_addr(c, ra);
            let (c1, b1, r1) = mwrite_s(c, b, m, s1);
            match r1 {
                Err(e) => (c1, b1, Err(e)),
                Ok(()) => {
                    let (c2, b2, r2) = mwrite_s(c1, b1, u16_specs::wrapping_add(m, 1), s2);
                    match r2 {
                        Err(e) => (c2, b2, Err(e)),
                        Ok(()) => (pc_plus(c2, 2), b2, Ok(())),
                    }
                },
            }
        }
    } else if mode == 2 {
        let (c1, b1, r1) = operand_s(c, b);
        match r1 {
            Err(e) => (c1, b1, Err(e)),
            Ok(i1) => {
                let (c2, b2, r2) = operand_s(pc_plus(c1, 1), b1);
                match r2 {
                    Err(e) => (c2, b2, Err(e)),
                    Ok(i2) => {
                        let m = (i1 * 256 + i2) as u16;
                        let (c3, b3, r3) = mwrite_s(c2, b2, m, s1);
                        match r3 {
                            Err(e) => (c3, b3, Err(e)),
                            Ok(()) => {
                                let (c4, b4, r4) = mwrite_s(
                                    c3,
                                    b3,
                                    u16_specs::wrapping_add(m, 1),
                                    s2,
                                );
                                match r4 {
                                    Err(e) => (c4, b4, Err(e)),
                                    Ok(()) => (pc_plus(c4, 3), b4, Ok(())),
                                }
                            },
                        }
                    },
                }
            },
        }
    } else {
        (c, b, Err(CPUExit::Fault(Fault::UnknownAction)))
    }
}

/// Store the four flags as four bytes at the operand address.
pub open spec fn op_gfls_s(c: CpuView, b: BusView, mode: u16, reg: u16) -> (
    CpuView,
    BusView,
    Result<(), CPUExit>,
) {
    let (c0, b0, r) = single_val_addr_s(c, b, mode, reg);
    match r {
        Err(e) => (c0, b0, Err(e)),
        Ok(addr) => {
            let f = c.flags;
            let (c1, b1, r1) = mwrite_s(c0, b0, addr, if f.carry { 1u8 } else { 0u8 });
            match r1 {
                Err(e) => (c1, b1, Err(e)),
                Ok(()) => {
                    let (c2, b2, r2) = mwrite_s(
                        c1,
                        b1,
                        u16_specs::wrapping_add(addr, 1),
                        if f.sign { 1u8 } else { 0u8 },
                    );
                    match r2 {
                        Err(e) => (c2, b2, Err(e)),
                        Ok(()) => {
                            let (c3, b3, r3) = mwrite_s(
                                c2,
                                b2,
                                u16_specs::wrapping_add(addr, 2),
                                if f.zero { 1u8 } else { 0u8 },
                            );
                            match r3 {
                                Err(e) => (c3, b3, Err(e)),
                                Ok(()) => {
                                    let (c4, b4, r4) = mwrite_s(
                                        c3,
                                        b3,
                                        u16_specs::wrapping_add(addr, 3),
                                        if f.overflow { 1u8 } else { 0u8 },
                                    );
                                    match r4 {
                                        Err(e) => (c4, b4, Err(e)),
                                        Ok(()) => (c4, b4, Ok(())),
                                    }
                                },
                            }
                        },
                    }
                },
            }
        },
    }
}

/// Load the four flags from four bytes at the operand address.
pub open spec fn op_sfls_s(c: CpuView, b: BusView, mode: u16, reg: u16) -> (
    CpuView,
    BusView,
    Result<(), CPUExit>,
) {
    let (c0, b0, r) = single_val_addr_s(c, b, mode, reg);
    match r {
        Err(e) => (c0, b0, Err(e)),
        Ok(addr) => {
            let (c1, b1, r1) = mread_s(c0, b0, addr);
            match r1 {
                Err(e) => (c1, b1, Err(e)),
                Ok(v1) => {
                    let (c2, b2, r2) = mread_s(c1, b1, u16_specs::wrapping_add(addr, 1));
                    match r2 {
                        Err(e) => (c2, b2, Err(e)),
                        Ok(v2) => {
                            let (c3, b3, r3) = mread_s(c2, b2, u16_specs::wrapping_add(addr, 2));
                            match r3 {
                                Err(e) => (c3, b3, Err(e)),
                                Ok(v3) => {
                                    let (c4, b4, r4) = mread_s(
                                        c3,
                                        b3,
                                        u16_specs::wrapping_add(addr, 3),
                                    );
                                    match r4 {
                                        Err(e) => (c4, b4, Err(e)),
                                        Ok(v4) => (
                                            CpuView {
                                                flags: Flags {
                                                    carry: v1 != 0,
                                                    sign: v2 != 0,
                                                    zero: v3 != 0,
                                                    overflow: v4 != 0,
                                                },
                                                ..c4
                                            },
                                            b4,
                                            Ok(()),
                                        ),
                                    }
                                },
                            }
                        },
                    }
                },
            }
        },
    }
}

/// Debug: the operand is consumed and the program counter advances; what
/// the host prints is its own affair.
pub open spec fn op_dbg_s(c: CpuView, b: BusView, mode: u16, reg: u16) -> (CpuView, BusView, Result<
    (),
    CPUExit,
>) {
    let (c1, b1, r) = single_val_s(c, b, mode, reg);
    match r {
        Err(e) => (c1, b1, Err(e)),
        Ok(_) => (c1, b1, Ok(())),
    }
}

/// Halt: in kernel mode the machine stops; in user mode it traps.
pub open spec fn op_halt_s(c: CpuView, b: BusView) -> (CpuView, BusView, Result<(), CPUExit>) {
    if c.mode == CPUMode::K {
        (CpuView { halted: true, ..c }, b, Ok(()))
    } else {
        (c, b, Err(CPUExit::Halt))
    }
}


/// The exit-cause byte written to the trap cell.
pub open spec fn exit_code(e: CPUExit) -> u8 {
    match e {
        CPUExit::NoExit => 0u8,
        CPUExit::Timer => 1u8,
        CPUExit::Halt => 2u8,
        CPUExit::Syscall => 3u8,
        CPUExit::Fault(f) => match f {
            Fault::IllegalInstruction => 4u8,
            Fault::IllegalMemAccess => 5u8,
            Fault::UnknownAction => 6u8,
        },
    }
}

/// The two header bytes at the program counter, read with intent `X`.
pub open spec fn fetch_s(c: CpuView, b: BusView) -> (CpuView, BusView, Result<(u8, u8), CPUExit>) {
    let c0 = CpuView { access: Access::X, ..c };
    let r1 = read_result(b, c0.pc, c0.mode, Access::X);
    let b1 = view_after_read(b, c0.pc, c0.mode, Access::X);
    match r1 {
        Err(e) => (c0, b1, Err(e)),
        Ok(i1) => {
            let a2 = u16_specs::wrapping_add(c0.pc, 1);
            let r2 = read_result(b1, a2, c0.mode, Access::X);
            let b2 = view_after_read(b1, a2, c0.mode, Access::X);
            match r2 {
                Err(e) => (c0, b2, Err(e)),
                Ok(i2) => (c0, b2, Ok((i1, i2))),
            }
        },
    }
}

/// Dispatch on the opcode. An opcode outside the set halts the machine.
pub open spec fn exec_op_s(c: CpuView, b: BusView, op: u16, mode: u16, reg: u16) -> (
    CpuView,
    BusView,
    Result<(), CPUExit>,
) {
    if op == OP_NOP {
        (pc_plus(c, 1), b, Ok(()))
    } else if op == OP_MOV {
        op_mov_s(c, b, mode, reg)
    } else if op == OP_ADD {
        op_add_s(c, b, mode, reg)
    } else if op == OP_SUB {
        op_sub_s(c, b, mode, reg)
    } else if op == OP_MUL {
        op_mul_s(c, b, mode, reg)
    } else if op == OP_DIV {
        op_div_s(c, b, mode, reg)
    } else if op == OP_MOD {
        op_mod_s(c, b, mode, reg)
    } else if op == OP_AND || op == OP_OR || op == OP_XOR || op == OP_NOT || op == OP_SHR || op
        == OP_SHRW {
        op_bitwise_s(c, b, mode, reg, op)
    } else if op == OP_JMP {
        op_j_s(c, b, mode, reg)
    } else if op == OP_JZ {
        jump_cond_s(c, b, mode, reg, c.flags.zero)
    } else if op == OP_JC {
        jump_cond_s(c, b, mode, reg, c.flags.carry)
    } else if op == OP_JO {
        jump_cond_s(c, b, mode, reg, c.flags.overflow)
    } else if op == OP_JS || op == OP_JL {
        jump_cond_s(c, b, mode, reg, c.flags.sign)
    } else if op == OP_JNZ {
        jump_cond_s(c, b, mode, reg, !c.flags.zero)
    } else if op == OP_JG {
        jump_cond_s(c, b, mode, reg, !c.flags.zero && !c.flags.sign)
    } else if op == OP_CMP {
        op_cmp_s(c, b, mode, reg)
    } else if op == OP_PUSH {
        op_push_op_s(c, b, mode, reg)
    } else if op == OP_POP {
        op_pop_op_s(c, b, mode, reg)
    } else if op == OP_CALL {
        op_call_s(c, b, mode, reg)
    } else if op == OP_RET {
        op_ret_s(c, b)
    } else if op == OP_SHL {
        op_shl_s(c, b, mode, reg)
    } else if op == OP_SAR {
        op_sar_s(c, b, mode, reg)
    } else if op == OP_SSP {
        op_ssp_s(c, b, mode, reg)
    } else if op == OP_SKIP {
        op_skip_s(c, b, mode, reg)
    } else if op == OP_SYS {
        op_sys_s(c, b)
    } else if op == OP_KRET {
        op_kret_s(c, b)
    } else if op == OP_GSP {
        op_gsp_s(c, b, mode, reg)
    } else if op == OP_PNK {
        (CpuView { halted: true, ..c }, b, Ok(()))
    } else if op == OP_DBG {
        op_dbg_s(c, b, mode, reg)
    } else if op == OP_GFLS {
        op_gfls_s(c, b, mode, reg)
    } else if op == OP_SFLS {
        op_sfls_s(c, b, mode, reg)
    } else if op == OP_HLT {
        op_halt_s(c, b)
    } else {
        (CpuView { halted: true, ..c }, b, Ok(()))
    }
}

/// One instruction: fetch, decode, the privilege check on kernel-only
/// opcodes, execute, and the user-mode quota.
pub open spec fn act_s(c: CpuView, b: BusView) -> (CpuView, BusView, Result<(), CPUExit>) {
    let (c1, b1, f) = fetch_s(c, b);
    match f {
        Err(e) => (c1, b1, Err(e)),
        Ok((i1, i2)) => {
            let w = header_word(i1, i2);
            let op = opcode_of(w) as u16;
            let md = mode_of(w) as u16;
            let rg = regfield_of(w) as u16;
            if c1.mode == CPUMode::U && (op == OP_SSP || op == OP_KRET) {
                (c1, b1, Err(CPUExit::Fault(Fault::IllegalInstruction)))
            } else {
                let (c2, b2, r) = exec_op_s(c1, b1, op, md, rg);
                match r {
                    Err(e) => (c2, b2, Err(e)),
                    Ok(()) => {
                        if c2.mode == CPUMode::U {
                            if c2.instruction_ctr + 1 >= c2.instruction_lim {
                                (CpuView { instruction_ctr: 0, ..c2 }, b2, Err(CPUExit::Timer))
                            } else {
                                (
                                    CpuView {
                                        instruction_ctr: (c2.instruction_ctr + 1) as u16,
                                        ..c2
                                    },
                                    b2,
                                    Ok(()),
                                )
                            }
                        } else {
                            (c2, b2, Ok(()))
                        }
                    },
                }
            }
        },
    }
}

/// Trap delivery: kernel mode, the faulting program counter pushed low
/// byte then high byte, the cause byte written to the trap cell, and the
/// program counter redirected to the trap vector. A machine that cannot
/// save the context stops.
pub open spec fn handle_exit_s(c: CpuView, b: BusView, e: CPUExit) -> (CpuView, BusView) {
    if c.halted {
        (c, b)
    } else {
        let c1 = CpuView { mode: CPUMode::K, access: Access::X, ..c };
        let pc1 = (c.pc / 256) as u8;
        let pc2 = (c.pc % 256) as u8;
        let (c2, b2, r1) = push_s(c1, b, pc2);
        match r1 {
            Err(_) => (CpuView { halted: true, ..c2 }, b2),
            Ok(()) => {
                let (c3, b3, r2) = push_s(c2, b2, pc1);
                match r2 {
                    Err(_) => (CpuView { halted: true, ..c3 }, b3),
                    Ok(()) => {
                        let (c4, b4, r3) = mwrite_s(c3, b3, TRAP_CAUSE_ADDR, exit_code(e));
                        match r3 {
                            Err(_) => (c4, b4),
                            Ok(()) => (CpuView { pc: c4.kernel_trap_address, ..c4 }, b4),
                        }
                    },
                }
            },
        }
    }
}

/// A full step: one instruction, and trap delivery if it exited.
#[verifier::opaque]
pub open spec fn step_s(c: CpuView, b: BusView) -> (CpuView, BusView) {
    let c0 = CpuView { access: Access::X, ..c };
    let (c1, b1, r) = act_s(c0, b);
    match r {
        Ok(()) => (c1, b1),
        Err(e) => handle_exit_s(c1, b1, e),
    }
}

impl Cpu {
    /// A processor in kernel mode at address 0, with the given trap vector
    /// and the default user instruction quota.
    pub fn new(trap_addr: u16) -> (cpu: Cpu)
        ensures
            cpu@.regs == Seq::new(8nat, |i: int| 0u8),
            cpu@.flags == (Flags { carry: false, sign: false, zero: false, overflow: false }),
            cpu@.pc == 0,
            cpu@.sp == 0,
            !cpu@.halted,
            cpu@.mode == CPUMode::K,
            cpu@.access == Access::X,
            cpu@.instruction_ctr == 0,
            cpu@.instruction_lim == 50,
            cpu@.kernel_trap_address == trap_addr,
    {
        let cpu = Cpu {
            regs: [0u8; 8],
            flags: Flags { carry: false, sign: false, zero: false, overflow: false },
            pc: 0,
            sp: 0,
            halted: false,
            mode: CPUMode::K,
            access: Access::X,
            instruction_ctr: 0,
            instruction_lim: 50,
            kernel_trap_address: trap_addr,
        };
        proof {
            assert(cpu.regs@ =~= Seq::new(8nat, |i: int| 0u8));
        }
        cpu
    }

    /// Advances the program counter by `incs` bytes, wrapping.
    fn increment_pc(&mut self, incs: u16)
        ensures
            final(self)@ == pc_plus(old(self)@, incs),
    {
        self.pc = self.pc.wrapping_add(incs);
    }

    /// A checked read with the current privilege and the current intent.
    fn memgetcore(&self, address: u16, mem: &mut Bus) -> (r: Result<u8, CPUExit>)
        ensures
            r == read_result(old(mem)@, address, self@.mode, self@.access),
            final(mem)@ == view_after_read(old(mem)@, address, self@.mode, self@.access),
    {
        mem.get(address, self.mode, self.access)
    }

    /// A checked read with intent `R`; the previous intent is restored on
    /// success.
    fn memget(&mut self, address: u16, mem: &mut Bus) -> (r: Result<u8, CPUExit>)
        ensures
            ({
                let (c, b, rr) = mread_s(old(self)@, old(mem)@, address);
                final(self)@ == c && final(mem)@ == b && r == rr
            }),
    {
        let orig_access = self.access;
        self.access = Access::R;
        let result = match self.memgetcore(address, mem) {
            Ok(v) => v,
            Err(e) => {
                return Err(e);
            },
        };
        self.access = orig_access;
        Ok(result)
    }

    /// A checked write with intent `W`, which the intent keeps afterwards.
    fn memset(&mut self, dest: u16, src: u8, mem: &mut Bus) -> (r: Result<(), CPUExit>)
        ensures
            ({
                let (c, b, rr) = mwrite_s(old(self)@, old(mem)@, dest, src);
                final(self)@ == c && final(mem)@ == b && r == rr
            }),
    {
        self.access = Access::W;
        mem.set(dest, src, self.mode, self.access)
    }

    /// An unchecked read of the operand byte at `pc + 2`.
    fn force_get_operand(&self, mem: &Bus) -> (r: u8)
        ensures
            r == mem@.ram[u16_specs::wrapping_add(self@.pc, 2) as int],
    {
        mem.force_get(self.pc.wrapping_add(2))
    }

    /// The checked operand byte at `pc + 2`.
    fn get_operand(&mut self, mem: &mut Bus) -> (r: Result<u8, CPUExit>)
        ensures
            ({
                let (c, b, rr) = operand_s(old(self)@, old(mem)@);
                final(self)@ == c && final(mem)@ == b && r == rr
            }),
    {
        let result = match self.memget(self.pc.wrapping_add(2), mem) {
            Ok(v) => v,
            Err(e) => {
                return Err(e);
            },
        };
        self.access = Access::X;
        Ok(result)
    }

    /// Pushes a byte: the stack grows downward, writing at `sp` before the
    /// decrement.
    fn push(&mut self, val: u8, mem: &mut Bus) -> (r: Result<(), CPUExit>)
        ensures
            ({
                let (c, b, rr) = push_s(old(self)@, old(mem)@, val);
                final(self)@ == c && final(mem)@ == b && r == rr
            }),
    {
        match self.memset(self.sp, val, mem) {
            Ok(()) => (),
            Err(e) => {
                return Err(e);
            },
        }
        self.sp = self.sp.wrapping_sub(1);
        Ok(())
    }

    /// Pops a byte: the increment first, then the read at the new `sp`.
    fn pop(&mut self, mem: &mut Bus) -> (r: Result<u8, CPUExit>)
        ensures
            ({
                let (c, b, rr) = pop_s(old(self)@, old(mem)@);
                final(self)@ == c && final(mem)@ == b && r == rr
            }),
    {
        self.sp = self.sp.wrapping_add(1);
        self.memget(self.sp, mem)
    }

    /// Sets the flags of an addition.
    fn signs_add(&mut self, a: u8, b: u8, result: u8, carry: bool)
        ensures
            final(self)@ == (CpuView { flags: add_flags(a, b, result, carry), ..old(self)@ }),
    {
        self.flags.carry = carry;
        self.flags.zero = result == 0;
        self.flags.sign = result >= 128;
        let a_sign = a >= 128;
        let b_sign = b >= 128;
        let result_sign = self.flags.sign;
        self.flags.overflow = (a_sign == b_sign) && (result_sign != a_sign);
    }

    /// Sets the flags of a subtraction or a compare.
    fn signs_sub(&mut self, a: u8, b: u8, result: u8, borrow: bool)
        ensures
            final(self)@ == (CpuView { flags: sub_flags(a, b, result, borrow), ..old(self)@ }),
    {
        self.flags.carry = borrow;
        self.flags.zero = result == 0;
        self.flags.sign = result >= 128;
        let a_sign = a >= 128;
        let b_sign = b >= 128;
        let result_sign = self.flags.sign;
        self.flags.overflow = (a_sign != b_sign) && (result_sign != a_sign);
    }

    /// Sets the flags of a multiplication.
    fn signs_mul(&mut self, result: u8, overflow: bool)
        ensures
            final(self)@ == (CpuView { flags: mul_flags(result, overflow), ..old(self)@ }),
    {
        self.flags.carry = overflow;
        self.flags.zero = result == 0;
        self.flags.sign = result >= 128;
        self.flags.overflow = overflow;
    }

    /// Sets the flags of a division or a remainder.
    fn signs_div(&mut self, result: u8)
        ensures
            final(self)@ == (CpuView { flags: div_flags(result), ..old(self)@ }),
    {
        self.flags.carry = false;
        self.flags.zero = result == 0;
        self.flags.sign = result >= 128;
        self.flags.overflow = false;
    }


    /// Move: the source value is written to the destination; the flags are
    /// untouched.
    fn op_mov(&mut self, mode: u16, reg: u16, mem: &mut Bus) -> (r: Result<(), CPUExit>)
        ensures
            ({
                let (c, b, rr) = op_mov_s(old(self)@, old(mem)@, mode, reg);
                final(self)@ == c && final(mem)@ == b && r == rr
            }),
    {
        let (_a, b, dest) = match self.double_val(mode, reg, mem) {
            Ok(t) => t,
            Err(e) => {
                return Err(e);
            },
        };
        self.store(dest, b, mem);
        Ok(())
    }

    /// Add with carry, zero, sign and signed-overflow flags.
    fn op_add(&mut self, mode: u16, reg: u16, mem: &mut Bus) -> (r: Result<(), CPUExit>)
        ensures
            ({
                let (c, b, rr) = op_add_s(old(self)@, old(mem)@, mode, reg);
                final(self)@ == c && final(mem)@ == b && r == rr
            }),
    {
        let (a, b, dest) = match self.double_val(mode, reg, mem) {
            Ok(t) => t,
            Err(e) => {
                return Err(e);
            },
        };
        let result = a.wrapping_add(b);
        let carry = (a as u16) + (b as u16) >= 256;
        self.store(dest, result, mem);
        self.signs_add(a, b, result, carry);
        Ok(())
    }

    /// Subtract with borrow, zero, sign and signed-overflow flags.
    fn op_sub(&mut self, mode: u16, reg: u16, mem: &mut Bus) -> (r: Result<(), CPUExit>)
        ensures
            ({
                let (c, b, rr) = op_sub_s(old(self)@, old(mem)@, mode, reg);
                final(self)@ == c && final(mem)@ == b && r == rr
            }),
    {
        let (a, b, dest) = match self.double_val(mode, reg, mem) {
            Ok(t) => t,
            Err(e) => {
                return Err(e);
            },
        };
        let result = a.wrapping_sub(b);
        let borrow = a < b;
        self.store(dest, result, mem);
        self.signs_sub(a, b, result, borrow);
        Ok(())
    }

    /// Multiply; carry and overflow record the unsigned overflow.
    fn op_mul(&mut self, mode: u16, reg: u16, mem: &mut Bus) -> (r: Result<(), CPUExit>)
        ensures
            ({
                let (c, b, rr) = op_mul_s(old(self)@, old(mem)@, mode, reg);
                final(self)@ == c && final(mem)@ == b && r == rr
            }),
    {
        let (a, b, dest) = match self.double_val(mode, reg, mem) {
            Ok(t) => t,
            Err(e) => {
                return Err(e);
            },
        };
        let result = a.wrapping_mul(b);
        proof {
            assert(a * b <= 255 * 255) by (nonlinear_arith)
                requires
                    a <= 255 && b <= 255,
            ;
        }
        let overflow = (a as u32) * (b as u32) >= 256;
        self.store(dest, result, mem);
        self.signs_mul(result, overflow);
        Ok(())
    }

    /// Divide; a zero divisor faults.
    fn op_div(&mut self, mode: u16, reg: u16, mem: &mut Bus) -> (r: Result<(), CPUExit>)
        ensures
            ({
                let (c, b, rr) = op_div_s(old(self)@, old(mem)@, mode, reg);
                final(self)@ == c && final(mem)@ == b && r == rr
            }),
    {
        let (a, b, dest) = match self.double_val(mode, reg, mem) {
            Ok(t) => t,
            Err(e) => {
                return Err(e);
            },
        };
        if b == 0 {
            return Err(CPUExit::Fault(Fault::UnknownAction));
        }
        let result = a / b;
        self.store(dest, result, mem);
        self.signs_div(result);
        Ok(())
    }

    /// Remainder; a zero divisor faults.
    fn op_mod(&mut self, mode: u16, reg: u16, mem: &mut Bus) -> (r: Result<(), CPUExit>)
        ensures
            ({
                let (c, b, rr) = op_mod_s(old(self)@, old(mem)@, mode, reg);
                final(self)@ == c && final(mem)@ == b && r == rr
            }),
    {
        let (a, b, dest) = match self.double_val(mode, reg, mem) {
            Ok(t) => t,
            Err(e) => {
                return Err(e);
            },
        };
        if b == 0 {
            return Err(CPUExit::Fault(Fault::UnknownAction));
        }
        let result = a % b;
        self.store(dest, result, mem);
        self.signs_div(result);
        Ok(())
    }

    /// Bitwise and; the flags are untouched.
    fn op_and(&mut self, mode: u16, reg: u16, mem: &mut Bus) -> (r: Result<(), CPUExit>)
        ensures
            ({
                let (c, b, rr) = op_bitwise_s(old(self)@, old(mem)@, mode, reg, OP_AND);
                final(self)@ == c && final(mem)@ == b && r == rr
            }),
    {
        let (a, b, dest) = match self.double_val(mode, reg, mem) {
            Ok(t) => t,
            Err(e) => {
                return Err(e);
            },
        };
        self.store(dest, a & b, mem);
        Ok(())
    }

    /// Bitwise or; the flags are untouched.
    fn op_or(&mut self, mode: u16, reg: u16, mem: &mut Bus) -> (r: Result<(), CPUExit>)
        ensures
            ({
                let (c, b, rr) = op_bitwise_s(old(self)@, old(mem)@, mode, reg, OP_OR);
                final(self)@ == c && final(mem)@ == b && r == rr
            }),
    {
        let (a, b, dest) = match self.double_val(mode, reg, mem) {
            Ok(t) => t,
            Err(e) => {
                return Err(e);
            },
        };
        self.store(dest, a | b, mem);
        Ok(())
    }

    /// Bitwise exclusive or; the flags are untouched.
    fn op_xor(&mut self, mode: u16, reg: u16, mem: &mut Bus) -> (r: Result<(), CPUExit>)
        ensures
            ({
                let (c, b, rr) = op_bitwise_s(old(self)@, old(mem)@, mode, reg, OP_XOR);
                final(self)@ == c && final(mem)@ == b && r == rr
            }),
    {
        let (a, b, dest) = match self.double_val(mode, reg, mem) {
            Ok(t) => t,
            Err(e) => {
                return Err(e);
            },
        };
        self.store(dest, a ^ b, mem);
        Ok(())
    }

    /// Bitwise not of the source; the flags are untouched.
    fn op_not(&mut self, mode: u16, reg: u16, mem: &mut Bus) -> (r: Result<(), CPUExit>)
        ensures
            ({
                let (c, b, rr) = op_bitwise_s(old(self)@, old(mem)@, mode, reg, OP_NOT);
                final(self)@ == c && final(mem)@ == b && r == rr
            }),
    {
        let (_a, b, dest) = match self.double_val(mode, reg, mem) {
            Ok(t) => t,
            Err(e) => {
                return Err(e);
            },
        };
        self.store(dest, !b, mem);
        Ok(())
    }

    /// Logical shift right by the source value; the flags are untouched.
    fn op_shr(&mut self, mode: u16, reg: u16, mem: &mut Bus) -> (r: Result<(), CPUExit>)
        ensures
            ({
                let (c, b, rr) = op_bitwise_s(old(self)@, old(mem)@, mode, reg, OP_SHR);
                final(self)@ == c && final(mem)@ == b && r == rr
            }),
    {
        let (a, b, dest) = match self.double_val(mode, reg, mem) {
            Ok(t) => t,
            Err(e) => {
                return Err(e);
            },
        };
        let result = if b < 8 {
            a >> b
        } else {
            0
        };
        self.store(dest, result, mem);
        Ok(())
    }

    /// Rotate right by the source value; the flags are untouched.
    fn op_shrw(&mut self, mode: u16, reg: u16, mem: &mut Bus) -> (r: Result<(), CPUExit>)
        ensures
            ({
                let (c, b, rr) = op_bitwise_s(old(self)@, old(mem)@, mode, reg, OP_SHRW);
                final(self)@ == c && final(mem)@ == b && r == rr
            }),
    {
        let (a, b, dest) = match self.double_val(mode, reg, mem) {
            Ok(t) => t,
            Err(e) => {
                return Err(e);
            },
        };
        let s = b % 8;
        let result = if s == 0 {
            a
        } else {
            (a >> s) | (a << (8 - s))
        };
        self.store(dest, result, mem);
        Ok(())
    }

    /// Compare: the flags of `dest - src`, with no write-back.
    fn op_cmp(&mut self, mode: u16, reg: u16, mem: &mut Bus) -> (r: Result<(), CPUExit>)
        ensures
            ({
                let (c, b, rr) = op_cmp_s(old(self)@, old(mem)@, mode, reg);
                final(self)@ == c && final(mem)@ == b && r == rr
            }),
    {
        let (a, b, _dest) = match self.double_val(mode, reg, mem) {
            Ok(t) => t,
            Err(e) => {
                return Err(e);
            },
        };
        let result = a.wrapping_sub(b);
        let borrow = a < b;
        self.signs_sub(a, b, result, borrow);
        Ok(())
    }

    /// Jump to the operand target.
    fn op_j(&mut self, mode: u16, reg: u16, mem: &mut Bus) -> (r: Result<(), CPUExit>)
        ensures
            ({
                let (c, b, rr) = op_j_s(old(self)@, old(mem)@, mode, reg);
                final(self)@ == c && final(mem)@ == b && r == rr
            }),
    {
        let ra: u16 = (reg / 8) % 8;
        match mode {
            0 => {
                if ra == 7 {
                    return Err(CPUExit::Fault(Fault::UnknownAction));
                }
                let m = self.read_pair(ra);
                self.pc = m;
                Ok(())
            },
            1 => {
                if ra == 7 {
                    return Err(CPUExit::Fault(Fault::UnknownAction));
                }
                let m = self.read_pair(ra);
                let v1 = match self.memget(m, mem) {
                    Ok(v) => v,
                    Err(e) => {
                        return Err(e);
                    },
                };
                let v2 = match self.memget(m.wrapping_add(1), mem) {
                    Ok(v) => v,
                    Err(e) => {
                        return Err(e);
                    },
                };
                self.pc = (v1 as u16) * 256 + (v2 as u16);
                Ok(())
            },
            2 => {
                let i1 = match self.get_operand(mem) {
                    Ok(v) => v,
                    Err(e) => {
                        return Err(e);
                    },
                };
                self.increment_pc(1);
                let i2 = match self.get_operand(mem) {
                    Ok(v) => v,
                    Err(e) => {
                        return Err(e);
                    },
                };
                self.pc = (i1 as u16) * 256 + (i2 as u16);
                Ok(())
            },
            _ => Err(CPUExit::Fault(Fault::UnknownAction)),
        }
    }

    /// A conditional jump: taken, or the program counter advances past the
    /// instruction.
    fn jump_cond(&mut self, mode: u16, reg: u16, mem: &mut Bus, taken: bool) -> (r: Result<
        (),
        CPUExit,
    >)
        ensures
            ({
                let (c, b, rr) = jump_cond_s(old(self)@, old(mem)@, mode, reg, taken);
                final(self)@ == c && final(mem)@ == b && r == rr
            }),
    {
        if taken {
            self.op_j(mode, reg, mem)
        } else {
            match mode {
                0 => {
                    self.increment_pc(2);
                    Ok(())
                },
                1 => {
                    self.increment_pc(2);
                    Ok(())
                },
                2 => {
                    self.increment_pc(4);
                    Ok(())
                },
                _ => Err(CPUExit::Fault(Fault::UnknownAction)),
            }
        }
    }

    /// Jump when the zero flag is set.
    fn op_jz(&mut self, mode: u16, reg: u16, mem: &mut Bus) -> (r: Result<(), CPUExit>)
        ensures
            ({
                let (c, b, rr) = jump_cond_s(old(self)@, old(mem)@, mode, reg, old(self)@.flags.zero);
                final(self)@ == c && final(mem)@ == b && r == rr
            }),
    {
        let taken = self.flags.zero;
        self.jump_cond(mode, reg, mem, taken)
    }

    /// Jump when the carry flag is set.
    fn op_jc(&mut self, mode: u16, reg: u16, mem: &mut Bus) -> (r: Result<(), CPUExit>)
        ensures
            ({
                let (c, b, rr) = jump_cond_s(old(self)@, old(mem)@, mode, reg, old(self)@.flags.carry);
                final(self)@ == c && final(mem)@ == b && r == rr
            }),
    {
        let taken = self.flags.carry;
        self.jump_cond(mode, reg, mem, taken)
    }

    /// Jump when the overflow flag is set.
    fn op_jo(&mut self, mode: u16, reg: u16, mem: &mut Bus) -> (r: Result<(), CPUExit>)
        ensures
            ({
                let (c, b, rr) = jump_cond_s(
                    old(self)@,
                    old(mem)@,
                    mode,
                    reg,
                    old(self)@.flags.overflow,
                );
                final(self)@ == c && final(mem)@ == b && r == rr
            }),
    {
        let taken = self.flags.overflow;
        self.jump_cond(mode, reg, mem, taken)
    }

    /// Jump when the sign flag is set.
    fn op_js(&mut self, mode: u16, reg: u16, mem: &mut Bus) -> (r: Result<(), CPUExit>)
        ensures
            ({
                let (c, b, rr) = jump_cond_s(old(self)@, old(mem)@, mode, reg, old(self)@.flags.sign);
                final(self)@ == c && final(mem)@ == b && r == rr
            }),
    {
        let taken = self.flags.sign;
        self.jump_cond(mode, reg, mem, taken)
    }

    /// Jump when the zero flag is clear.
    fn op_jnz(&mut self, mode: u16, reg: u16, mem: &mut Bus) -> (r: Result<(), CPUExit>)
        ensures
            ({
                let (c, b, rr) = jump_cond_s(
                    old(self)@,
                    old(mem)@,
                    mode,
                    reg,
                    !old(self)@.flags.zero,
                );
                final(self)@ == c && final(mem)@ == b && r == rr
            }),
    {
        let taken = !self.flags.zero;
        self.jump_cond(mode, reg, mem, taken)
    }

    /// Jump when the comparison came out strictly greater: neither zero nor
    /// sign is set.
    fn op_jg(&mut self, mode: u16, reg: u16, mem: &mut Bus) -> (r: Result<(), CPUExit>)
        ensures
            ({
                let (c, b, rr) = jump_cond_s(
                    old(self)@,
                    old(mem)@,
                    mode,
                    reg,
                    !old(self)@.flags.zero && !old(self)@.flags.sign,
                );
                final(self)@ == c && final(mem)@ == b && r == rr
            }),
    {
        let taken = !self.flags.zero && !self.flags.sign;
        self.jump_cond(mode, reg, mem, taken)
    }

    /// Jump when the comparison came out less: the sign flag is set.
    fn op_jl(&mut self, mode: u16, reg: u16, mem: &mut Bus) -> (r: Result<(), CPUExit>)
        ensures
            ({
                let (c, b, rr) = jump_cond_s(old(self)@, old(mem)@, mode, reg, old(self)@.flags.sign);
                final(self)@ == c && final(mem)@ == b && r == rr
            }),
    {
        self.op_js(mode, reg, mem)
    }

    /// Push the operand value.
    fn op_push(&mut self, mode: u16, reg: u16, mem: &mut Bus) -> (r: Result<(), CPUExit>)
        ensures
            ({
                let (c, b, rr) = op_push_op_s(old(self)@, old(mem)@, mode, reg);
                final(self)@ == c && final(mem)@ == b && r == rr
            }),
    {
        let val = match self.single_val(mode, reg, mem) {
            Ok(v) => v,
            Err(e) => {
                return Err(e);
            },
        };
        self.push(val, mem)
    }

    /// Pop into a register or into memory at a register pair.
    fn op_pop(&mut self, mode: u16, reg: u16, mem: &mut Bus) -> (r: Result<(), CPUExit>)
        ensures
            ({
                let (c, b, rr) = op_pop_op_s(old(self)@, old(mem)@, mode, reg);
                final(self)@ == c && final(mem)@ == b && r == rr
            }),
    {
        let ra: u16 = (reg / 8) % 8;
        match mode {
            0 => {
                let val = match self.pop(mem) {
                    Ok(v) => v,
                    Err(e) => {
                        return Err(e);
                    },
                };
                self.regs[ra as usize] = val;
                self.increment_pc(2);
                Ok(())
            },
            1 => {
                if ra == 7 {
                    return Err(CPUExit::Fault(Fault::UnknownAction));
                }
                let m = self.read_pair(ra);
                let val = match self.pop(mem) {
                    Ok(v) => v,
                    Err(e) => {
                        return Err(e);
                    },
                };
                match self.memset(m, val, mem) {
                    Ok(()) => (),
                    Err(e) => {
                        return Err(e);
                    },
                }
                self.increment_pc(2);
                Ok(())
            },
            _ => Err(CPUExit::Fault(Fault::UnknownAction)),
        }
    }

    /// Call: push the return address, high byte first, then jump.
    fn op_call(&mut self, mode: u16, reg: u16, mem: &mut Bus) -> (r: Result<(), CPUExit>)
        ensures
            ({
                let (c, b, rr) = op_call_s(old(self)@, old(mem)@, mode, reg);
                final(self)@ == c && final(mem)@ == b && r == rr
            }),
    {
        let len: u16 = match mode {
            0 => 2,
            1 => 2,
            2 => 4,
            _ => {
                return Err(CPUExit::Fault(Fault::UnknownAction));
            },
        };
        let pos = self.pc.wrapping_add(len);
        let p1 = (pos / 256) as u8;
        let p2 = (pos % 256) as u8;
        match self.push(p1, mem) {
            Ok(()) => (),
            Err(e) => {
                return Err(e);
            },
        }
        match self.push(p2, mem) {
            Ok(()) => (),
            Err(e) => {
                return Err(e);
            },
        }
        self.op_j(mode, reg, mem)
    }

    /// Return: pop the low byte, then the high byte, of the saved address.
    fn op_ret(&mut self, mem: &mut Bus) -> (r: Result<(), CPUExit>)
        ensures
            ({
                let (c, b, rr) = op_ret_s(old(self)@, old(mem)@);
                final(self)@ == c && final(mem)@ == b && r == rr
            }),
    {
        let m2 = match self.pop(mem) {
            Ok(v) => v,
            Err(e) => {
                return Err(e);
            },
        };
        let m1 = match self.pop(mem) {
            Ok(v) => v,
            Err(e) => {
                return Err(e);
            },
        };
        self.pc = (m1 as u16) * 256 + (m2 as u16);
        Ok(())
    }

    /// System call: advance one byte and trap.
    fn op_sys(&mut self, mem: &mut Bus) -> (r: Result<(), CPUExit>)
        ensures
            ({
                let (c, b, rr) = op_sys_s(old(self)@, old(mem)@);
                final(self)@ == c && final(mem)@ == b && r == rr
            }),
    {
        self.increment_pc(1);
        Err(CPUExit::Syscall)
    }

    /// Kernel return: the only path back to user mode.
    fn op_kret(&mut self, mem: &mut Bus) -> (r: Result<(), CPUExit>)
        ensures
            ({
                let (c, b, rr) = op_kret_s(old(self)@, old(mem)@);
                final(self)@ == c && final(mem)@ == b && r == rr
            }),
    {
        let pc1 = match self.pop(mem) {
            Ok(v) => v,
            Err(e) => {
                return Err(e);
            },
        };
        let pc2 = match self.pop(mem) {
            Ok(v) => v,
            Err(e) => {
                return Err(e);
            },
        };
        self.pc = (pc1 as u16) * 256 + (pc2 as u16);
        self.mode = CPUMode::U;
        self.access = Access::X;
        Ok(())
    }

    /// Shift left by one, in a register or in memory.
    fn op_shl(&mut self, mode: u16, reg: u16, mem: &mut Bus) -> (r: Result<(), CPUExit>)
        ensures
            ({
                let (c, b, rr) = op_shl_s(old(self)@, old(mem)@, mode, reg);
                final(self)@ == c && final(mem)@ == b && r == rr
            }),
    {
        let ra: u16 = (reg / 8) % 8;
        match mode {
            0 => {
                let v = self.regs[ra as usize];
                self.regs[ra as usize] = v << 1;
                self.increment_pc(2);
                Ok(())
            },
            1 => {
                if ra == 7 {
                    return Err(CPUExit::Fault(Fault::UnknownAction));
                }
                let m = self.read_pair(ra);
                let v = match self.memget(m, mem) {
                    Ok(v) => v,
                    Err(e) => {
                        return Err(e);
                    },
                };
                match self.memset(m, v << 1, mem) {
                    Ok(()) => (),
                    Err(e) => {
                        return Err(e);
                    },
                }
                self.increment_pc(2);
                Ok(())
            },
            _ => Err(CPUExit::Fault(Fault::UnknownAction)),
        }
    }

    /// Arithmetic shift right by one, in a register or in memory.
    fn op_sar(&mut self, mode: u16, reg: u16, mem: &mut Bus) -> (r: Result<(), CPUExit>)
        ensures
            ({
                let (c, b, rr) = op_sar_s(old(self)@, old(mem)@, mode, reg);
                final(self)@ == c && final(mem)@ == b && r == rr
            }),
    {
        let ra: u16 = (reg / 8) % 8;
        match mode {
            0 => {
                let v = self.regs[ra as usize];
                self.regs[ra as usize] = v / 2 + (if v >= 128 { 128 } else { 0 });
                self.increment_pc(2);
                Ok(())
            },
            1 => {
                if ra == 7 {
                    return Err(CPUExit::Fault(Fault::UnknownAction));
                }
                let m = self.read_pair(ra);
                let v = match self.memget(m, mem) {
                    Ok(v) => v,
                    Err(e) => {
                        return Err(e);
                    },
                };
                match self.memset(m, v / 2 + (if v >= 128 { 128 } else { 0 }), mem) {
                    Ok(()) => (),
                    Err(e) => {
                        return Err(e);
                    },
                }
                self.increment_pc(2);
                Ok(())
            },
            _ => Err(CPUExit::Fault(Fault::UnknownAction)),
        }
    }

    /// Set the stack pointer to the operand address.
    fn op_ssp(&mut self, mode: u16, reg: u16, mem: &mut Bus) -> (r: Result<(), CPUExit>)
        ensures
            ({
                let (c, b, rr) = op_ssp_s(old(self)@, old(mem)@, mode, reg);
                final(self)@ == c && final(mem)@ == b && r == rr
            }),
    {
        let addr = match self.single_val_addr(mode, reg, mem) {
            Ok(v) => v,
            Err(e) => {
                return Err(e);
            },
        };
        self.sp = addr;
        Ok(())
    }

    /// Skip: advance the program counter past the instruction and the
    /// operand value more.
    fn op_skip(&mut self, mode: u16, reg: u16, mem: &mut Bus) -> (r: Result<(), CPUExit>)
        ensures
            ({
                let (c, b, rr) = op_skip_s(old(self)@, old(mem)@, mode, reg);
                final(self)@ == c && final(mem)@ == b && r == rr
            }),
    {
        let ra: u16 = (reg / 8) % 8;
        match mode {
            0 => {
                let v = self.regs[ra as usize];
                self.increment_pc(2 + (v as u16));
                Ok(())
            },
            1 => {
                if ra == 7 {
                    return Err(CPUExit::Fault(Fault::UnknownAction));
                }
                let m = self.read_pair(ra);
                let v = match self.memget(m, mem) {
                    Ok(v) => v,
                    Err(e) => {
                        return Err(e);
                    },
                };
                self.increment_pc(2 + (v as u16));
                Ok(())
            },
            2 => {
                let i = match self.get_operand(mem) {
                    Ok(v) => v,
                    Err(e) => {
                        return Err(e);
                    },
                };
                self.increment_pc(3 + (i as u16));
                Ok(())
            },
            _ => Err(CPUExit::Fault(Fault::UnknownAction)),
        }
    }

    /// Store the stack pointer, high byte first.
    fn op_gsp(&mut self, mode: u16, reg: u16, mem: &mut Bus) -> (r: Result<(), CPUExit>)
        ensures
            ({
                let (c, b, rr) = op_gsp_s(old(self)@, old(mem)@, mode, reg);
                final(self)@ == c && final(mem)@ == b && r == rr
            }),
    {
        let ra: u16 = (reg / 8) % 8;
        let s1 = (self.sp / 256) as u8;
        let s2 = (self.sp % 256) as u8;
        match mode {
            0 => {
                if ra == 7 {
                    return Err(CPUExit::Fault(Fault::UnknownAction));
                }
                self.regs[ra as usize] = s1;
                self.regs[(ra + 1) as usize] = s2;
                self.increment_pc(2);
                Ok(())
            },
            1 => {
                if ra == 7 {
                    return Err(CPUExit::Fault(Fault::UnknownAction));
                }
                let m = self.read_pair(ra);
                match self.memset(m, s1, mem) {
                    Ok(()) => (),
                    Err(e) => {
                        return Err(e);
                    },
                }
                match self.memset(m.wrapping_add(1), s2, mem) {
                    Ok(()) => (),
                    Err(e) => {
                        return Err(e);
                    },
                }
                self.increment_pc(2);
                Ok(())
            },
            2 => {
                let i1 = match self.get_operand(mem) {
                    Ok(v) => v,
                    Err(e) => {
                        return Err(e);
                    },
                };
                self.increment_pc(1);
                let i2 = match self.get_operand(mem) {
                    Ok(v) => v,
                    Err(e) => {
                        return Err(e);
                    },
                };
                let m = (i1 as u16) * 256 + (i2 as u16);
                match self.memset(m, s1, mem) {
                    Ok(()) => (),
                    Err(e) => {
                        return Err(e);
                    },
                }
                match self.memset(m.wrapping_add(1), s2, mem) {
                    Ok(()) => (),
                    Err(e) => {
                        return Err(e);
                    },
                }
                self.increment_pc(3);
                Ok(())
            },
            _ => Err(CPUExit::Fault(Fault::UnknownAction)),
        }
    }

    /// Store the four flags as four bytes at the operand address.
    fn op_gfls(&mut self, mode: u16, reg: u16, mem: &mut Bus) -> (r: Result<(), CPUExit>)
        ensures
            ({
                let (c, b, rr) = op_gfls_s(old(self)@, old(mem)@, mode, reg);
                final(self)@ == c && final(mem)@ == b && r == rr
            }),
    {
        let addr = match self.single_val_addr(mode, reg, mem) {
            Ok(v) => v,
            Err(e) => {
                return Err(e);
            },
        };
        let f = self.flags;
        match self.memset(addr, if f.carry { 1 } else { 0 }, mem) {
            Ok(()) => (),
            Err(e) => {
                return Err(e);
            },
        }
        match self.memset(addr.wrapping_add(1), if f.sign { 1 } else { 0 }, mem) {
            Ok(()) => (),
            Err(e) => {
                return Err(e);
            },
        }
        match self.memset(addr.wrapping_add(2), if f.zero { 1 } else { 0 }, mem) {
            Ok(()) => (),
            Err(e) => {
                return Err(e);
            },
        }
        match self.memset(addr.wrapping_add(3), if f.overflow { 1 } else { 0 }, mem) {
            Ok(()) => (),
            Err(e) => {
                return Err(e);
            },
        }
        Ok(())
    }

    /// Load the four flags from four bytes at the operand address.
    fn op_sfls(&mut self, mode: u16, reg: u16, mem: &mut Bus) -> (r: Result<(), CPUExit>)
        ensures
            ({
                let (c, b, rr) = op_sfls_s(old(self)@, old(mem)@, mode, reg);
                final(self)@ == c && final(mem)@ == b && r == rr
            }),
    {
        let addr = match self.single_val_addr(mode, reg, mem) {
            Ok(v) => v,
            Err(e) => {
                return Err(e);
            },
        };
        let v1 = match self.memget(addr, mem) {
            Ok(v) => v,
            Err(e) => {
                return Err(e);
            },
        };
        let v2 = match self.memget(addr.wrapping_add(1), mem) {
            Ok(v) => v,
            Err(e) => {
                return Err(e);
            },
        };
        let v3 = match self.memget(addr.wrapping_add(2), mem) {
            Ok(v) => v,
            Err(e) => {
                return Err(e);
            },
        };
        let v4 = match self.memget(addr.wrapping_add(3), mem) {
            Ok(v) => v,
            Err(e) => {
                return Err(e);
            },
        };
        self.flags.carry = v1 != 0;
        self.flags.sign = v2 != 0;
        self.flags.zero = v3 != 0;
        self.flags.overflow = v4 != 0;
        Ok(())
    }

    /// Debug: consume the operand and move on.
    fn op_dbg(&mut self, mode: u16, reg: u16, mem: &mut Bus) -> (r: Result<(), CPUExit>)
        ensures
            ({
                let (c, b, rr) = op_dbg_s(old(self)@, old(mem)@, mode, reg);
                final(self)@ == c && final(mem)@ == b && r == rr
            }),
    {
        let _val = match self.single_val(mode, reg, mem) {
            Ok(v) => v,
            Err(e) => {
                return Err(e);
            },
        };
        Ok(())
    }

    /// Halt: the machine stops in kernel mode; user mode traps.
    fn op_halt(&mut self, _mem: &mut Bus) -> (r: Result<(), CPUExit>)
        ensures
            ({
                let (c, b, rr) = op_halt_s(old(self)@, old(_mem)@);
                final(self)@ == c && final(_mem)@ == b && r == rr
            }),
    {
        match self.mode {
            CPUMode::K => {
                self.halted = true;
                Ok(())
            },
            CPUMode::U => Err(CPUExit::Halt),
        }
    }

    /// Abort at the program's request: the machine stops.
    fn op_pnk(&mut self, _mem: &mut Bus)
        ensures
            final(self)@ == (CpuView { halted: true, ..old(self)@ }),
            final(_mem)@ == old(_mem)@,
    {
        self.halted = true;
    }

    /// The 16-bit address in the register pair starting at `i`.
    fn read_pair(&self, i: u16) -> (m: u16)
        requires
            i < 7,
        ensures
            m == pair_addr(self@, i as int),
    {
        (self.regs[i as usize] as u16) * 256 + (self.regs[(i + 1) as usize] as u16)
    }

    /// Writes a byte to a resolved destination.
    fn store(&mut self, dest: Dest, val: u8, mem: &mut Bus)
        requires
            dest matches Dest::Reg(i) ==> i < 8,
        ensures
            ({
                let (c, b) = store_s(old(self)@, old(mem)@, dest, val);
                final(self)@ == c && final(mem)@ == b
            }),
    {
        match dest {
            Dest::Reg(i) => {
                self.regs[i as usize] = val;
            },
            Dest::Mem(a) => {
                mem.force_set(a, val);
            },
        }
    }

    /// Resolves the operands of a two-operand instruction and advances the
    /// program counter past it.
    #[verifier::rlimit(80)]
    fn double_val(&mut self, mode: u16, reg: u16, mem: &mut Bus) -> (r: Result<
        (u8, u8, Dest),
        CPUExit,
    >)
        ensures
            ({
                let (c, b, rr) = double_val_s(old(self)@, old(mem)@, mode, reg);
                final(self)@ == c && final(mem)@ == b && r == rr
            }),
            match r {
                Ok(t) => match t.2 {
                    Dest::Reg(i) => i < 8,
                    Dest::Mem(_) => true,
                },
                Err(_) => true,
            },
    {
        let ra: u16 = (reg / 8) % 8;
        let rb: u16 = reg % 8;
        match mode {
            0 => {
                let b = self.regs[rb as usize];
                let a = self.regs[ra as usize];
                self.increment_pc(2);
                Ok((a, b, Dest::Reg(ra as u8)))
            },
            1 => {
                if rb == 7 {
                    return Err(CPUExit::Fault(Fault::UnknownAction));
                }
                let m = self.read_pair(rb);
                let b = match self.memget(m, mem) {
                    Ok(v) => v,
                    Err(e) => {
                        return Err(e);
                    },
                };
                let a = self.regs[ra as usize];
                self.increment_pc(2);
                Ok((a, b, Dest::Reg(ra as u8)))
            },
            2 => {
                if ra == 7 {
                    return Err(CPUExit::Fault(Fault::UnknownAction));
                }
                let m = self.read_pair(ra);
                let b = self.regs[rb as usize];
                self.increment_pc(2);
                let a = match mem.get_writable(m, self.mode) {
                    Ok(v) => v,
                    Err(e) => {
                        return Err(e);
                    },
                };
                Ok((a, b, Dest::Mem(m)))
            },
            3 => {
                let i2 = match self.get_operand(mem) {
                    Ok(v) => v,
                    Err(e) => {
                        return Err(e);
                    },
                };
                let a = self.regs[ra as usize];
                self.increment_pc(3);
                Ok((a, i2, Dest::Reg(ra as u8)))
            },
            4 => {
                let i21 = match self.get_operand(mem) {
                    Ok(v) => v,
                    Err(e) => {
                        return Err(e);
                    },
                };
                self.increment_pc(1);
                let i22 = match self.get_operand(mem) {
                    Ok(v) => v,
                    Err(e) => {
                        return Err(e);
                    },
                };
                self.increment_pc(1);
                let m = (i21 as u16) * 256 + (i22 as u16);
                let b = match self.memget(m, mem) {
                    Ok(v) => v,
                    Err(e) => {
                        return Err(e);
                    },
                };
                let a = self.regs[ra as usize];
                self.increment_pc(2);
                Ok((a, b, Dest::Reg(ra as u8)))
            },
            5 => {
                let i11 = match self.get_operand(mem) {
                    Ok(v) => v,
                    Err(e) => {
                        return Err(e);
                    },
                };
                self.increment_pc(1);
                let i12 = match self.get_operand(mem) {
                    Ok(v) => v,
                    Err(e) => {
                        return Err(e);
                    },
                };
                self.increment_pc(1);
                let m = (i11 as u16) * 256 + (i12 as u16);
                let b = self.regs[rb as usize];
                self.increment_pc(2);
                let a = match mem.get_writable(m, self.mode) {
                    Ok(v) => v,
                    Err(e) => {
                        return Err(e);
                    },
                };
                Ok((a, b, Dest::Mem(m)))
            },
            _ => Err(CPUExit::Fault(Fault::UnknownAction)),
        }
    }

    /// Resolves the value operand of a one-operand instruction and advances
    /// the program counter past it.
    #[verifier::rlimit(80)]
    fn single_val(&mut self, mode: u16, reg: u16, mem: &mut Bus) -> (r: Result<u8, CPUExit>)
        ensures
            ({
                let (c, b, rr) = single_val_s(old(self)@, old(mem)@, mode, reg);
                final(self)@ == c && final(mem)@ == b && r == rr
            }),
    {
        let ra: u16 = (reg / 8) % 8;
        match mode {
            0 => {
                let v = self.regs[ra as usize];
                self.increment_pc(2);
                Ok(v)
            },
            1 => {
                if ra == 7 {
                    return Err(CPUExit::Fault(Fault::UnknownAction));
                }
                let m = self.read_pair(ra);
                let v = match self.memget(m, mem) {
                    Ok(v) => v,
                    Err(e) => {
                        return Err(e);
                    },
                };
                self.increment_pc(2);
                Ok(v)
            },
            2 => {
                let v = match self.get_operand(mem) {
                    Ok(v) => v,
                    Err(e) => {
                        return Err(e);
                    },
                };
                self.increment_pc(1);
                self.increment_pc(2);
                Ok(v)
            },
            3 => {
                let i1 = match self.get_operand(mem) {
                    Ok(v) => v,
                    Err(e) => {
                        return Err(e);
                    },
                };
                self.increment_pc(1);
                let i2 = match self.get_operand(mem) {
                    Ok(v) => v,
                    Err(e) => {
                        return Err(e);
                    },
                };
                self.increment_pc(1);
                let m = (i1 as u16) * 256 + (i2 as u16);
                let v = match self.memget(m, mem) {
                    Ok(v) => v,
                    Err(e) => {
                        return Err(e);
                    },
                };
                self.increment_pc(2);
                Ok(v)
            },
            _ => Err(CPUExit::Fault(Fault::UnknownAction)),
        }
    }

    /// Resolves the address operand of a one-operand instruction and
    /// advances the program counter past it.
    #[verifier::rlimit(80)]
    fn single_val_addr(&mut self, mode: u16, reg: u16, mem: &mut Bus) -> (r: Result<u16, CPUExit>)
        ensures
            ({
                let (c, b, rr) = single_val_addr_s(old(self)@, old(mem)@, mode, reg);
                final(self)@ == c && final(mem)@ == b && r == rr
            }),
    {
        let ra: u16 = (reg / 8) % 8;
        match mode {
            0 => {
                if ra == 7 {
                    return Err(CPUExit::Fault(Fault::UnknownAction));
                }
                let m = self.read_pair(ra);
                self.increment_pc(2);
                Ok(m)
            },
            1 => {
                if ra == 7 {
                    return Err(CPUExit::Fault(Fault::UnknownAction));
                }
                let m = self.read_pair(ra);
                let v1 = match self.memget(m, mem) {
                    Ok(v) => v,
                    Err(e) => {
                        return Err(e);
                    },
                };
                let v2 = match self.memget(m.wrapping_add(1), mem) {
                    Ok(v) => v,
                    Err(e) => {
                        return Err(e);
                    },
                };
                self.increment_pc(2);
                Ok((v1 as u16) * 256 + (v2 as u16))
            },
            2 => {
                let i1 = match self.get_operand(mem) {
                    Ok(v) => v,
                    Err(e) => {
                        return Err(e);
                    },
                };
                self.increment_pc(1);
                let i2 = match self.get_operand(mem) {
                    Ok(v) => v,
                    Err(e) => {
                        return Err(e);
                    },
                };
                self.increment_pc(1);
                self.increment_pc(2);
                Ok((i1 as u16) * 256 + (i2 as u16))
            },
            3 => {
                let i1 = match self.get_operand(mem) {
                    Ok(v) => v,
                    Err(e) => {
                        return Err(e);
                    },
                };
                self.increment_pc(1);
                let i2 = match self.get_operand(mem) {
                    Ok(v) => v,
                    Err(e) => {
                        return Err(e);
                    },
                };
                self.increment_pc(1);
                let m = (i1 as u16) * 256 + (i2 as u16);
                let v1 = match self.memget(m, mem) {
                    Ok(v) => v,
                    Err(e) => {
                        return Err(e);
                    },
                };
                let v2 = match self.memget(m.wrapping_add(1), mem) {
                    Ok(v) => v,
                    Err(e) => {
                        return Err(e);
                    },
                };
                self.increment_pc(2);
                Ok((v1 as u16) * 256 + (v2 as u16))
            },
            _ => Err(CPUExit::Fault(Fault::UnknownAction)),
        }
    }

    /// Executes one decoded instruction.
    #[verifier::rlimit(100)]
    fn exec_op(&mut self, opcode: u16, mode: u16, reg: u16, mem: &mut Bus) -> (r: Result<
        (),
        CPUExit,
    >)
        ensures
            ({
                let (c, b, rr) = exec_op_s(old(self)@, old(mem)@, opcode, mode, reg);
                final(self)@ == c && final(mem)@ == b && r == rr
            }),
    {
        let result: Result<(), CPUExit> = if opcode == OP_NOP {
            self.increment_pc(1);
            Ok(())
        } else if opcode == OP_MOV {
            self.op_mov(mode, reg, mem)
        } else if opcode == OP_ADD {
            self.op_add(mode, reg, mem)
        } else if opcode == OP_SUB {
            self.op_sub(mode, reg, mem)
        } else if opcode == OP_MUL {
            self.op_mul(mode, reg, mem)
        } else if opcode == OP_DIV {
            self.op_div(mode, reg, mem)
        } else if opcode == OP_MOD {
            self.op_mod(mode, reg, mem)
        } else if opcode == OP_AND {
            self.op_and(mode, reg, mem)
        } else if opcode == OP_OR {
            self.op_or(mode, reg, mem)
        } else if opcode == OP_XOR {
            self.op_xor(mode, reg, mem)
        } else if opcode == OP_NOT {
            self.op_not(mode, reg, mem)
        } else if opcode == OP_JMP {
            self.op_j(mode, reg, mem)
        } else if opcode == OP_JZ {
            self.op_jz(mode, reg, mem)
        } else if opcode == OP_JC {
            self.op_jc(mode, reg, mem)
        } else if opcode == OP_JO {
            self.op_jo(mode, reg, mem)
        } else if opcode == OP_JS {
            self.op_js(mode, reg, mem)
        } else if opcode == OP_JNZ {
            self.op_jnz(mode, reg, mem)
        } else if opcode == OP_JG {
            self.op_jg(mode, reg, mem)
        } else if opcode == OP_JL {
            self.op_jl(mode, reg, mem)
        } else if opcode == OP_CMP {
            self.op_cmp(mode, reg, mem)
        } else if opcode == OP_PUSH {
            self.op_push(mode, reg, mem)
        } else if opcode == OP_POP {
            self.op_pop(mode, reg, mem)
        } else if opcode == OP_CALL {
            self.op_call(mode, reg, mem)
        } else if opcode == OP_RET {
            self.op_ret(mem)
        } else if opcode == OP_SHL {
            self.op_shl(mode, reg, mem)
        } else if opcode == OP_SHR {
            self.op_shr(mode, reg, mem)
        } else if opcode == OP_SAR {
            self.op_sar(mode, reg, mem)
        } else if opcode == OP_SSP {
            self.op_ssp(mode, reg, mem)
        } else if opcode == OP_SKIP {
            self.op_skip(mode, reg, mem)
        } else if opcode == OP_SYS {
            self.op_sys(mem)
        } else if opcode == OP_KRET {
            self.op_kret(mem)
        } else if opcode == OP_GSP {
            self.op_gsp(mode, reg, mem)
        } else if opcode == OP_PNK {
            self.op_pnk(mem);
            Ok(())
        } else if opcode == OP_DBG {
            self.op_dbg(mode, reg, mem)
        } else if opcode == OP_SHRW {
            self.op_shrw(mode, reg, mem)
        } else if opcode == OP_GFLS {
            self.op_gfls(mode, reg, mem)
        } else if opcode == OP_SFLS {
            self.op_sfls(mode, reg, mem)
        } else if opcode == OP_HLT {
            self.op_halt(mem)
        } else {
            self.halted = true;
            Ok(())
        };
        result
    }

    /// Fetches, decodes and executes one instruction, then charges the
    /// user-mode quota.
    #[verifier::rlimit(100)]
    fn act(&mut self, mem: &mut Bus) -> (r: Result<(), CPUExit>)
        ensures
            ({
                let (c, b, rr) = act_s(old(self)@, old(mem)@);
                final(self)@ == c && final(mem)@ == b && r == rr
            }),
    {
        self.access = Access::X;
        let instruction1 = match self.memgetcore(self.pc, mem) {
            Ok(v) => v,
            Err(e) => {
                return Err(e);
            },
        };
        let instruction2 = match self.memgetcore(self.pc.wrapping_add(1), mem) {
            Ok(v) => v,
            Err(e) => {
                return Err(e);
            },
        };
        let instruction: u16 = (instruction1 as u16) * 256 + (instruction2 as u16);
        let opcode: u16 = instruction / 1024;
        let mode: u16 = (instruction / 64) % 16;
        let reg: u16 = instruction % 64;

        if matches!(self.mode, CPUMode::U) {
            if opcode == OP_SSP || opcode == OP_KRET {
                return Err(CPUExit::Fault(Fault::IllegalInstruction));
            }
        }

        match self.exec_op(opcode, mode, reg, mem) {
            Ok(()) => (),
            Err(e) => {
                return Err(e);
            },
        }

        if matches!(self.mode, CPUMode::U) {
            let next: u32 = (self.instruction_ctr as u32) + 1;
            if next >= self.instruction_lim as u32 {
                self.instruction_ctr = 0;
                return Err(CPUExit::Timer);
            } else {
                self.instruction_ctr = self.instruction_ctr + 1;
            }
        }
        Ok(())
    }

    /// Delivers a trap: saves the faulting program counter and the cause,
    /// and redirects to the kernel trap vector. A machine whose trap save
    /// itself faults stops.
    fn handle_exit(&mut self, exit: CPUExit, mem: &mut Bus)
        ensures
            ({
                let (c, b) = handle_exit_s(old(self)@, old(mem)@, exit);
                final(self)@ == c && final(mem)@ == b
            }),
    {
        if self.halted {
            return;
        }
        self.mode = CPUMode::K;
        self.access = Access::X;
        let exit_id: u8 = match exit {
            CPUExit::NoExit => 0,
            CPUExit::Timer => 1,
            CPUExit::Halt => 2,
            CPUExit::Syscall => 3,
            CPUExit::Fault(f) => match f {
                Fault::IllegalInstruction => 4,
                Fault::IllegalMemAccess => 5,
                Fault::UnknownAction => 6,
            },
        };
        let pc1: u8 = (self.pc / 256) as u8;
        let pc2: u8 = (self.pc % 256) as u8;
        match self.push(pc2, mem) {
            Ok(()) => (),
            Err(_) => {
                self.halted = true;
                return;
            },
        }
        match self.push(pc1, mem) {
            Ok(()) => (),
            Err(_) => {
                self.halted = true;
                return;
            },
        }
        match self.memset(TRAP_CAUSE_ADDR, exit_id, mem) {
            Ok(()) => (),
            Err(_) => {
                return;
            },
        }
        self.pc = self.kernel_trap_address;
    }

    /// One step of the machine: an instruction, and trap delivery if it
    /// exited.
    pub fn step(&mut self, mem: &mut Bus)
        ensures
            ({
                let (c, b) = step_s(old(self)@, old(mem)@);
                final(self)@ == c && final(mem)@ == b
            }),
    {
        proof {
            reveal(step_s);
        }
        self.access = Access::X;
        match self.act(mem) {
            Ok(()) => (),
            Err(e) => self.handle_exit(e, mem),
        }
    }
}

} // verus!
