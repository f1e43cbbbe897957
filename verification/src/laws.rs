//! Laws of the machine, stated and proved against the processor's
//! functional model.

use vstd::prelude::*;
use vstd::wrapping::u16_specs;
use vstd::wrapping::u8_specs as u8_wrap_specs;
use crate::bus::BusView;
use crate::cpu::{
    add_flags, double_val_s, exec_op_s, op_call_s, op_j_s, op_ret_s, pc_plus, pop_s, push_s,
    Access, CpuView, Dest,
};
use crate::bus::{in_mmio, write_result};
use crate::assembler::{
    append_seg, byte_args_s, imm_bytes_s, stmt_step_s, walk_s, AsmView,
};
use crate::parser::{DoubleMode, ExprV, OperandLength, OperandV, SingleMode, StmtV};
use crate::isa::{
    reg_a, OP_ADD, OP_AND, OP_CMP, OP_DBG, OP_DIV, OP_GFLS, OP_GSP, OP_MOD, OP_MOV, OP_MUL,
    OP_NOP, OP_NOT, OP_OR, OP_POP, OP_PUSH, OP_SAR, OP_SFLS, OP_SHL, OP_SHR, OP_SHRW, OP_SSP,
    OP_SUB, OP_XOR,
};

verus! {

/// The value of a byte read as a two's-complement signed number.
pub open spec fn signed8(x: u8) -> int {
    if x < 128 {
        x as int
    } else {
        x - 256
    }
}

/// The flag law of addition: for every pair of bytes, `add` sets zero
/// exactly when the byte sum is zero, carry exactly when the true sum
/// reaches 256, sign to the top bit of the result, and overflow exactly
/// when the signed sum leaves the signed byte range.
pub proof fn lemma_add_flags(a: u8, b: u8)
    ensures
        ({
            let r = u8_wrap_specs::wrapping_add(a, b);
            let f = add_flags(a, b, r, a + b >= 256);
            &&& f.zero == ((a + b) % 256 == 0)
            &&& f.carry == (a + b >= 256)
            &&& f.sign == (r >= 128)
            &&& f.overflow == !(-128 <= signed8(a) + signed8(b) <= 127)
        }),
{
}

/// The stack round trip: pushing a byte and popping it hands the byte
/// back and restores the stack pointer, whenever both stack accesses go
/// through.
pub proof fn lemma_stack_round_trip(c: CpuView, b: BusView, v: u8)
    requires
        b.ram.len() == 65536,
        push_s(c, b, v).2 is Ok,
        ({
            let (c1, b1, _) = push_s(c, b, v);
            pop_s(c1, b1).2 is Ok
        }),
    ensures
        ({
            let (c1, b1, _) = push_s(c, b, v);
            let (c2, b2, r) = pop_s(c1, b1);
            &&& r == Result::<u8, crate::cpu::CPUExit>::Ok(v)
            &&& c2.sp == c.sp
            &&& b2.ram == b.ram.update(c.sp as int, v)
        }),
{
    let (c1, b1, r1) = push_s(c, b, v);
    assert(write_result(b, c.sp, c.mode, Access::W) is Ok);
    assert(!in_mmio(b, c.sp));
    assert(c1.sp == u16_specs::wrapping_sub(c.sp, 1));
    let (c2, b2, r) = pop_s(c1, b1);
    assert(c2.sp == c.sp);
    assert(b1.ram[c.sp as int] == v);
    assert(!in_mmio(b1, c.sp));
}

/// The call/ret round trip with an immediate target: `call` pushes the
/// address of the following instruction and an immediate `ret` lands on
/// it, with the stack pointer restored.
#[verifier::rlimit(100)]
pub proof fn lemma_call_ret_round_trip(c: CpuView, b: BusView, reg: u16)
    requires
        b.ram.len() == 65536,
    ensures
        ({
            let (c3, b3, r) = op_call_s(c, b, 2, reg);
            r is Ok ==> (op_ret_s(c3, b3).2 is Ok ==> ({
                let (c4, b4, r2) = op_ret_s(c3, b3);
                c4.pc == u16_specs::wrapping_add(c.pc, 4) && c4.sp == c.sp
            }))
        }),
{
    let (c3, b3, r) = op_call_s(c, b, 2, reg);
    if r is Ok {
        let pos = u16_specs::wrapping_add(c.pc, 4);
        let p1 = (pos / 256) as u8;
        let p2 = (pos % 256) as u8;
        let (ca, ba, ra) = push_s(c, b, p1);
        let (cb, bb, rb) = push_s(ca, ba, p2);
        assert(ra is Ok && rb is Ok);
        assert(ba.ram == b.ram.update(c.sp as int, p1));
        assert(ca.sp == u16_specs::wrapping_sub(c.sp, 1));
        assert(bb.ram == ba.ram.update(ca.sp as int, p2));
        assert(cb.sp == u16_specs::wrapping_sub(ca.sp, 1));
        assert(ca.sp != c.sp);
        let (cj, bj, rj) = op_j_s(cb, bb, 2, reg);
        assert(c3 == cj && b3 == bj);
        assert(bj.ram == bb.ram);
        assert(cj.sp == cb.sp);
        assert(write_result(ba, ca.sp, ca.mode, Access::W) is Ok);
        assert(!in_mmio(ba, ca.sp));
        assert(!in_mmio(b, ca.sp));
        if op_ret_s(c3, b3).2 is Ok {
            let (c4, b4, r2) = op_ret_s(c3, b3);
            assert(u16_specs::wrapping_add(c3.sp, 1) == ca.sp);
            assert(b3.ram[ca.sp as int] == p2);
            assert(u16_specs::wrapping_add(ca.sp, 1) == c.sp);
            assert(!in_mmio(b, c.sp));
            assert(b3.ram[c.sp as int] == p1);
            assert(c4.pc == p1 * 256 + p2);
            assert(p1 * 256 + p2 == pos);
        }
    }
}

/// The frame law of the register-addressed two-operand instructions: when
/// one executes without a fault, the program counter advances exactly two
/// bytes (the encoded length), the bus is untouched, and every register
/// other than the destination keeps its value.
#[verifier::rlimit(100)]
pub proof fn lemma_register_ops_frame(c: CpuView, b: BusView, op: u16, reg: u16)
    requires
        c.regs.len() == 8,
        op == OP_MOV || op == OP_ADD || op == OP_SUB || op == OP_MUL || op == OP_DIV || op
            == OP_MOD || op == OP_AND || op == OP_OR || op == OP_XOR || op == OP_NOT || op
            == OP_SHR || op == OP_SHRW || op == OP_CMP,
    ensures
        ({
            let (c2, b2, r) = exec_op_s(c, b, op, 0, reg);
            r is Ok ==> {
                &&& c2.pc == u16_specs::wrapping_add(c.pc, 2)
                &&& b2 == b
                &&& c2.sp == c.sp
                &&& c2.mode == c.mode
                &&& c2.halted == c.halted
                &&& forall|i: int|
                    0 <= i < 8 && i != reg_a(reg as int) ==> c2.regs[i] == c.regs[i]
            }
        }),
{
    let (c1, b1, rr) = double_val_s(c, b, 0, reg);
    assert(c1 == pc_plus(c, 2) && b1 == b);
    assert(rr matches Ok(t) && t.2 == Dest::Reg(reg_a(reg as int) as u8));
    let (c2, b2, r) = exec_op_s(c, b, op, 0, reg);
    if r is Ok {
        assert forall|i: int|
            0 <= i < 8 && i != reg_a(reg as int) implies c2.regs[i] == c.regs[i] by {
            // Each opcode in the set writes only through the destination
            // register of the resolved operands.
            if op == OP_MOV {
            } else if op == OP_ADD {
            } else if op == OP_SUB {
            } else if op == OP_MUL {
            } else if op == OP_DIV {
            } else if op == OP_MOD {
            } else if op == OP_CMP {
            } else {
            }
        }
    }
}



/// The encoded length of a two-operand instruction in each addressing
/// mode: two header bytes, then one immediate byte for `Ri`, two for
/// `Rmi`/`Mir`.
pub open spec fn double_mode_len(mode: u16) -> u16 {
    if mode == 3 {
        3u16
    } else if mode == 4 || mode == 5 {
        4u16
    } else {
        2u16
    }
}

/// The encoded length of a one-operand instruction taking a byte value.
pub open spec fn single_val_len(mode: u16) -> u16 {
    if mode == 2 {
        3u16
    } else if mode == 3 {
        4u16
    } else {
        2u16
    }
}

/// The encoded length of a one-operand instruction taking an address.
pub open spec fn single_addr_len(mode: u16) -> u16 {
    if mode == 2 || mode == 3 {
        4u16
    } else {
        2u16
    }
}

/// Whether an opcode neither branches nor stops the machine: its only
/// effect on the program counter is to step past its own encoding.
pub open spec fn nonbranching(op: u16) -> bool {
    op == OP_NOP || op == OP_MOV || op == OP_ADD || op == OP_SUB || op == OP_MUL || op == OP_DIV
        || op == OP_MOD || op == OP_AND || op == OP_OR || op == OP_XOR || op == OP_NOT || op
        == OP_SHR || op == OP_SHRW || op == OP_CMP || op == OP_SHL || op == OP_SAR || op == OP_DBG
        || op == OP_PUSH || op == OP_POP || op == OP_SSP || op == OP_GSP || op == OP_GFLS || op
        == OP_SFLS
}

/// The encoded length a non-branching opcode advances by; `nop` is the
/// one-byte exception of the opcode table.
pub open spec fn nonbranch_len(op: u16, mode: u16) -> u16 {
    if op == OP_NOP {
        1u16
    } else if op == OP_SHL || op == OP_SAR || op == OP_POP {
        2u16
    } else if op == OP_DBG || op == OP_PUSH {
        single_val_len(mode)
    } else if op == OP_SSP || op == OP_GSP || op == OP_GFLS || op == OP_SFLS {
        single_addr_len(mode)
    } else {
        double_mode_len(mode)
    }
}

/// The length law of the non-branching instructions: whichever addressing
/// mode one executes in, when it executes without a fault the program
/// counter moves forward by exactly the instruction's encoded length.
#[verifier::rlimit(100)]
pub proof fn lemma_nonbranching_pc_advance(c: CpuView, b: BusView, op: u16, mode: u16, reg: u16)
    requires
        nonbranching(op),
    ensures
        ({
            let (c2, b2, r) = exec_op_s(c, b, op, mode, reg);
            r is Ok ==> c2.pc == u16_specs::wrapping_add(c.pc, nonbranch_len(op, mode))
        }),
{
    let (c2, b2, r) = exec_op_s(c, b, op, mode, reg);
    if r is Ok {
        if op == OP_NOP {
        } else if op == OP_MOV {
        } else if op == OP_ADD {
        } else if op == OP_SUB {
        } else if op == OP_MUL {
        } else if op == OP_DIV {
        } else if op == OP_MOD {
        } else if op == OP_AND || op == OP_OR || op == OP_XOR || op == OP_NOT || op == OP_SHR
            || op == OP_SHRW {
        } else if op == OP_CMP {
        } else if op == OP_SHL {
        } else if op == OP_SAR {
        } else if op == OP_DBG {
        } else if op == OP_PUSH {
        } else if op == OP_POP {
        } else if op == OP_SSP {
        } else if op == OP_GSP {
        } else if op == OP_GFLS {
        } else if op == OP_SFLS {
        } else {
        }
    }
}


/// Memory agreement everywhere but at one address.
pub open spec fn ram_frame(before: Seq<u8>, after: Seq<u8>, w: int) -> bool {
    &&& after.len() == before.len()
    &&& forall|a: int| 0 <= a < before.len() && a != w ==> after[a] == before[a]
}

/// The frame law of the two-operand instructions in every addressing mode:
/// when one executes without a fault it leaves the stack pointer, the
/// privilege, the halt flag and every register but the destination alone,
/// writes at most one byte of memory (the resolved destination), and --
/// for `mov` and the bitwise family -- keeps all four flags.
#[verifier::rlimit(100)]
pub proof fn lemma_double_ops_full_frame(c: CpuView, b: BusView, op: u16, mode: u16, reg: u16)
    requires
        c.regs.len() == 8,
        b.ram.len() == 65536,
        op == OP_MOV || op == OP_ADD || op == OP_SUB || op == OP_MUL || op == OP_DIV || op
            == OP_MOD || op == OP_AND || op == OP_OR || op == OP_XOR || op == OP_NOT || op
            == OP_SHR || op == OP_SHRW || op == OP_CMP,
    ensures
        ({
            let (c2, b2, r) = exec_op_s(c, b, op, mode, reg);
            r is Ok ==> {
                &&& c2.sp == c.sp
                &&& c2.mode == c.mode
                &&& c2.halted == c.halted
                &&& forall|i: int|
                    0 <= i < 8 && i != reg_a(reg as int) ==> c2.regs[i] == c.regs[i]
                &&& exists|w: int| #[trigger] ram_frame(b.ram, b2.ram, w)
                &&& ((op == OP_MOV || op == OP_AND || op == OP_OR || op == OP_XOR || op == OP_NOT
                    || op == OP_SHR || op == OP_SHRW) ==> c2.flags == c.flags)
            }
        }),
{
    let (c2, b2, r) = exec_op_s(c, b, op, mode, reg);
    if r is Ok {
        let (c1, b1, rr) = double_val_s(c, b, mode, reg);
        assert(rr is Ok);
        assert(b1.ram == b.ram);
        let d = rr->Ok_0.2;
        match d {
            Dest::Reg(_) => {
                assert(b2.ram == b.ram);
                assert(ram_frame(b.ram, b2.ram, -1));
            },
            Dest::Mem(m) => {
                assert(ram_frame(b.ram, b2.ram, m as int));
            },
        }
    }
}

// ---------------------------------------------------------------------------
// Two-pass consistency of the assembler.
// ---------------------------------------------------------------------------
/// A directive argument that reads the same in both passes: a literal
/// number or a string.
pub open spec fn literal_arg(e: ExprV) -> bool {
    e matches ExprV::Num(n) ==> n is Raw
}

/// A program whose directives take only literal arguments; instruction
/// operands may still reference labels freely.
pub open spec fn literal_signals(prog: Seq<StmtV>) -> bool {
    forall|i: int|
        0 <= i < prog.len() ==> (#[trigger] prog[i] matches StmtV::Signal { name, args }
            ==> forall|j: int| 0 <= j < args.len() ==> literal_arg(#[trigger] args[j]))
}

/// Literal `.byte` arguments produce the same bytes in both passes.
proof fn lemma_byte_args_passes(
    args: Seq<ExprV>,
    l1: Seq<(Seq<char>, u16)>,
    l2: Seq<(Seq<char>, u16)>,
)
    requires
        forall|j: int| 0 <= j < args.len() ==> literal_arg(#[trigger] args[j]),
    ensures
        byte_args_s(args, l1, true) == byte_args_s(args, l2, false),
    decreases args.len(),
{
    if args.len() > 0 {
        lemma_byte_args_passes(args.drop_last(), l1, l2);
    }
}

/// One statement advances both passes alike: when both passes accept it,
/// they emit the same number of bytes, keep the same cursor, the same
/// constants, and record the same new labels.
proof fn lemma_stmt_step_passes(st: StmtV, a: AsmView, b: AsmView)
    requires
        a.pc == b.pc,
        a.consts == b.consts,
        a.counting,
        !b.counting,
        (st matches StmtV::Signal { name, args } ==> forall|j: int|
            0 <= j < args.len() ==> literal_arg(#[trigger] args[j])),
        stmt_step_s(st, a) is Some,
        stmt_step_s(st, b) is Some,
    ensures
        ({
            let (ba, a1) = stmt_step_s(st, a)->Some_0;
            let (bb, b1) = stmt_step_s(st, b)->Some_0;
            &&& ba.len() == bb.len()
            &&& a1.pc == b1.pc
            &&& a1.consts == b1.consts
            &&& a1.counting && !b1.counting
            &&& a1.labels == (if st is Label {
                a.labels.push((st->Label_0, a.pc))
            } else {
                a.labels
            })
            &&& b1.labels == (if st is Label {
                b.labels.push((st->Label_0, b.pc))
            } else {
                b.labels
            })
        }),
{
    match st {
        StmtV::DoubleOperation { opid, mode, dest, src, operand_length } => {
            let ol = if mode == DoubleMode::Rmi || mode == DoubleMode::Mir {
                OperandLength::Unsigned16
            } else {
                operand_length
            };
            lemma_imm_len_passes(dest, ol, a, b);
            lemma_imm_len_passes(src, ol, a, b);
        },
        StmtV::SingleOperation { opid, mode, operand, operand_length } => {
            let ol = if mode == SingleMode::Mi && operand_length == OperandLength::Unsigned8 {
                OperandLength::Unsigned16
            } else {
                operand_length
            };
            lemma_imm_len_passes(operand, ol, a, b);
        },
        StmtV::Signal { name, args } => {
            lemma_byte_args_passes(args, a.labels, b.labels);
        },
        _ => {},
    }
}

/// The width of an immediate is fixed by the mode and the operand's shape,
/// never by what a name resolves to.
proof fn lemma_imm_len_passes(op: OperandV, len: OperandLength, a: AsmView, b: AsmView)
    requires
        a.counting,
        !b.counting,
    ensures
        ({
            let ia = imm_bytes_s(op, len, a.labels, a.consts, true, true);
            let ib = imm_bytes_s(op, len, b.labels, b.consts, false, true);
            ia is Some && ib is Some ==> ia->Some_0.len() == ib->Some_0.len()
        }),
        ({
            let ia = imm_bytes_s(op, len, a.labels, a.consts, true, false);
            let ib = imm_bytes_s(op, len, b.labels, b.consts, false, false);
            ia is Some && ib is Some ==> ia->Some_0.len() == ib->Some_0.len()
        }),
{
}

/// Both passes stay in step from any aligned pair of states: the emit
/// cursor agrees at every statement, so every label recorded by the second
/// pass repeats a pass-one label at the same address.
proof fn lemma_walks_aligned(
    prog: Seq<StmtV>,
    i: nat,
    a: AsmView,
    b: AsmView,
    sa: Seq<(u16, Seq<u8>)>,
    sb: Seq<(u16, Seq<u8>)>,
)
    requires
        literal_signals(prog),
        a.program == prog,
        b.program == prog,
        a.pc == b.pc,
        a.consts == b.consts,
        a.counting,
        !b.counting,
        walk_s(prog, i, a, sa) is Some,
        walk_s(prog, i, b, sb) is Some,
    ensures
        ({
            let fa = walk_s(prog, i, a, sa)->Some_0.0;
            let fb = walk_s(prog, i, b, sb)->Some_0.0;
            &&& fa.pc == fb.pc
            &&& fa.labels.skip(a.labels.len() as int) == fb.labels.skip(b.labels.len() as int)
            &&& fa.labels.len() - a.labels.len() == fb.labels.len() - b.labels.len()
            &&& a.labels == fa.labels.take(a.labels.len() as int)
            &&& b.labels == fb.labels.take(b.labels.len() as int)
        }),
    decreases prog.len() - i,
{
    if i >= prog.len() {
        assert(a.labels =~= a.labels.take(a.labels.len() as int));
        assert(b.labels =~= b.labels.take(b.labels.len() as int));
        assert(a.labels.skip(a.labels.len() as int) =~= b.labels.skip(b.labels.len() as int));
    } else {
        let st = prog[i as int];
        lemma_stmt_step_passes(st, a, b);
        let (ba, a1) = stmt_step_s(st, a)->Some_0;
        let (bb, b1) = stmt_step_s(st, b)->Some_0;
        lemma_walk_preserves_fields(prog, i, a, sa);
        lemma_walk_preserves_fields(prog, i, b, sb);
        let a2 = if ba.len() > 0 {
            AsmView {
                pc: vstd::wrapping::u16_specs::wrapping_add(a1.pc, ((ba.len() % 0x10000) as u16)),
                ..a1
            }
        } else {
            a1
        };
        let b2 = if bb.len() > 0 {
            AsmView {
                pc: vstd::wrapping::u16_specs::wrapping_add(b1.pc, ((bb.len() % 0x10000) as u16)),
                ..b1
            }
        } else {
            b1
        };
        let sa2 = if ba.len() > 0 && !a1.counting {
            append_seg(sa, a1.current_pos, ba)
        } else {
            sa
        };
        let sb2 = if bb.len() > 0 && !b1.counting {
            append_seg(sb, b1.current_pos, bb)
        } else {
            sb
        };
        assert(walk_s(prog, i, a, sa) == walk_s(prog, i + 1, a2, sa2));
        assert(walk_s(prog, i, b, sb) == walk_s(prog, i + 1, b2, sb2));
        lemma_walks_aligned(prog, i + 1, a2, b2, sa2, sb2);
        lemma_walk_preserves_fields(prog, i + 1, a2, sa2);
        lemma_walk_preserves_fields(prog, i + 1, b2, sb2);
        if st is Label {
            assert(a2.labels =~= a.labels.push((st->Label_0, a.pc)));
            assert(b2.labels =~= b.labels.push((st->Label_0, b.pc)));
            lemma_take_push(walk_s(prog, i + 1, a2, sa2)->Some_0.0.labels, a.labels, (st->Label_0, a.pc));
            lemma_take_push(walk_s(prog, i + 1, b2, sb2)->Some_0.0.labels, b.labels, (st->Label_0, b.pc));
            lemma_skip_one(
                walk_s(prog, i + 1, a2, sa2)->Some_0.0.labels,
                walk_s(prog, i + 1, b2, sb2)->Some_0.0.labels,
                a.labels.len(),
                b.labels.len(),
                (st->Label_0, a.pc),
            );
        }
    }
}

/// A list whose prefix is `base.push(x)` has `base` as a prefix too, with
/// `x` right after it.
proof fn lemma_take_push(full: Seq<(Seq<char>, u16)>, base: Seq<(Seq<char>, u16)>, x: (Seq<char>, u16))
    requires
        base.push(x) == full.take(base.len() as int + 1),
        full.len() >= base.len() + 1,
    ensures
        base == full.take(base.len() as int),
        full[base.len() as int] == x,
{
    assert(base =~= full.take(base.len() as int)) by {
        assert(forall|k: int|
            0 <= k < base.len() ==> base[k] == #[trigger] base.push(x)[k]);
    }
    assert(full[base.len() as int] == base.push(x)[base.len() as int]);
}

/// Two lists that agree from one past their prefixes also agree from the
/// prefixes when the first new element is shared.
proof fn lemma_skip_one(
    fa: Seq<(Seq<char>, u16)>,
    fb: Seq<(Seq<char>, u16)>,
    na: nat,
    nb: nat,
    x: (Seq<char>, u16),
)
    requires
        fa.len() >= na + 1,
        fb.len() >= nb + 1,
        fa.skip(na as int + 1) == fb.skip(nb as int + 1),
        fa.len() - na == fb.len() - nb,
        fa[na as int] == x,
        fb[nb as int] == x,
    ensures
        fa.skip(na as int) == fb.skip(nb as int),
{
    assert(fa.skip(na as int) =~= fb.skip(nb as int)) by {
        assert(forall|k: int|
            1 <= k < fa.len() - na ==> #[trigger] fa.skip(na as int)[k] == fa.skip(na as int + 1)[k - 1]);
        assert(forall|k: int|
            1 <= k < fb.len() - nb ==> #[trigger] fb.skip(nb as int)[k] == fb.skip(nb as int + 1)[k - 1]);
    }
}

/// A pass never rewrites the program, the pass flag, or the labels it
/// started with: labels only accrue at the end.
proof fn lemma_walk_preserves_fields(
    prog: Seq<StmtV>,
    i: nat,
    a: AsmView,
    segs: Seq<(u16, Seq<u8>)>,
)
    ensures
        walk_s(prog, i, a, segs) matches Some(t) ==> {
            &&& t.0.program == a.program
            &&& t.0.counting == a.counting
            &&& t.0.labels.len() >= a.labels.len()
            &&& t.0.labels.take(a.labels.len() as int) == a.labels
        },
    decreases prog.len() - i,
{
    if i >= prog.len() {
        if walk_s(prog, i, a, segs) is Some {
            assert(a.labels.take(a.labels.len() as int) =~= a.labels);
        }
    } else {
        match stmt_step_s(prog[i as int], a) {
            None => {},
            Some((bytes, a1)) => {
                let a2 = if bytes.len() > 0 {
                    AsmView {
                        pc: vstd::wrapping::u16_specs::wrapping_add(
                            a1.pc,
                            ((bytes.len() % 0x10000) as u16),
                        ),
                        ..a1
                    }
                } else {
                    a1
                };
                let segs2 = if bytes.len() > 0 && !a1.counting {
                    append_seg(segs, a1.current_pos, bytes)
                } else {
                    segs
                };
                lemma_walk_preserves_fields(prog, i + 1, a2, segs2);
                if walk_s(prog, i, a, segs) is Some {
                    assert(a2.labels.take(a.labels.len() as int) =~= a.labels);
                    let t0 = walk_s(prog, i + 1, a2, segs2)->Some_0.0;
                    assert(a.labels =~= t0.labels.take(a2.labels.len() as int).take(
                        a.labels.len() as int,
                    ));
                    assert(t0.labels.take(a2.labels.len() as int).take(a.labels.len() as int)
                        =~= t0.labels.take(a.labels.len() as int));
                }
            },
        }
    }
}

/// Two-pass consistency: over a program whose directives take literal
/// arguments, every label the sizing pass records is recorded again by the
/// emitting pass at the same address -- the emit cursor of pass two meets
/// each label where pass one left it.
pub proof fn lemma_two_pass_consistency(prog: Seq<StmtV>, a0: AsmView, b0: AsmView)
    requires
        literal_signals(prog),
        a0.program == prog,
        b0.program == prog,
        a0.pc == b0.pc,
        a0.counting,
        !b0.counting,
        a0.labels == Seq::<(Seq<char>, u16)>::empty(),
        a0.consts == b0.consts,
        b0.labels == walk_s(prog, 0, a0, Seq::<(u16, Seq<u8>)>::empty())->Some_0.0.labels,
        walk_s(prog, 0, a0, Seq::<(u16, Seq<u8>)>::empty()) is Some,
        walk_s(prog, 0, b0, Seq::<(u16, Seq<u8>)>::empty()) is Some,
    ensures
        ({
            let pass1 = walk_s(prog, 0, a0, Seq::<(u16, Seq<u8>)>::empty())->Some_0.0;
            let pass2 = walk_s(prog, 0, b0, Seq::<(u16, Seq<u8>)>::empty())->Some_0.0;
            pass2.labels == pass1.labels + pass1.labels
        }),
{
    lemma_walks_aligned(prog, 0, a0, b0, Seq::empty(), Seq::empty());
    let pass1 = walk_s(prog, 0, a0, Seq::<(u16, Seq<u8>)>::empty())->Some_0.0;
    let pass2 = walk_s(prog, 0, b0, Seq::<(u16, Seq<u8>)>::empty())->Some_0.0;
    assert(pass1.labels.skip(0) =~= pass1.labels);
    assert(pass2.labels =~= pass2.labels.take(b0.labels.len() as int) + pass2.labels.skip(
        b0.labels.len() as int,
    ));
}

} // verus!
