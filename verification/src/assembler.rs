//! The two-pass assembler: a statement list encoded into byte segments.
//!
//! The first pass sizes every statement and records each label at the
//! address it will get; the second pass emits bytes, resolving every
//! reference against the recorded tables.

use vstd::prelude::*;
use vstd::string::StringExecFns;
use crate::isa::{encode_b0, encode_b1};
use crate::parser::{
    function_view, str_eq, BinaryOp, DoubleMode, ExprV, Expr, FunctionV, Function, NumExprV,
    NumExpr, Operand, OperandV, OperandLength, SingleMode, Stmt, StmtV, StrExpr, StrExprV,
};

verus! {

/// Which pass is running: the sizing pass or the emitting pass.
#[derive(Debug, PartialEq, Eq, Structural, Clone, Copy)]
enum AssembleMode {
    CountBytes,
    Assemble,
}

/// An error that aborts the build, with a diagnostic for the host.
#[derive(Debug)]
pub struct AssemblerError {
    pub message: String,
}

/// The label table: name to address, the latest binding first.
pub open spec fn lookup_label(ls: Seq<(Seq<char>, u16)>, name: Seq<char>) -> Option<u16>
    decreases ls.len(),
{
    if ls.len() == 0 {
        None
    } else if ls.last().0 == name {
        Some(ls.last().1)
    } else {
        lookup_label(ls.drop_last(), name)
    }
}

/// The constant table: name to byte, the latest binding first.
pub open spec fn lookup_const(cs: Seq<(Seq<char>, u8)>, name: Seq<char>) -> Option<u8>
    decreases cs.len(),
{
    if cs.len() == 0 {
        None
    } else if cs.last().0 == name {
        Some(cs.last().1)
    } else {
        lookup_const(cs.drop_last(), name)
    }
}

/// The opcode of each mnemonic.
pub open spec fn opcode_of_opid(name: Seq<char>) -> Option<u8> {
    if name == "nop"@ {
        Some(0u8)
    } else if name == "mov"@ {
        Some(1u8)
    } else if name == "add"@ {
        Some(2u8)
    } else if name == "sub"@ {
        Some(3u8)
    } else if name == "mul"@ {
        Some(4u8)
    } else if name == "div"@ {
        Some(5u8)
    } else if name == "mod"@ {
        Some(6u8)
    } else if name == "and"@ {
        Some(7u8)
    } else if name == "or"@ {
        Some(8u8)
    } else if name == "xor"@ {
        Some(9u8)
    } else if name == "not"@ {
        Some(10u8)
    } else if name == "jmp"@ {
        Some(11u8)
    } else if name == "jz"@ {
        Some(12u8)
    } else if name == "jc"@ {
        Some(13u8)
    } else if name == "jo"@ {
        Some(14u8)
    } else if name == "js"@ {
        Some(15u8)
    } else if name == "jnz"@ {
        Some(16u8)
    } else if name == "jg"@ {
        Some(17u8)
    } else if name == "jl"@ {
        Some(18u8)
    } else if name == "cmp"@ {
        Some(19u8)
    } else if name == "push"@ {
        Some(20u8)
    } else if name == "pop"@ {
        Some(21u8)
    } else if name == "call"@ {
        Some(22u8)
    } else if name == "ret"@ {
        Some(23u8)
    } else if name == "shl"@ {
        Some(24u8)
    } else if name == "shr"@ {
        Some(25u8)
    } else if name == "sar"@ {
        Some(26u8)
    } else if name == "ssp"@ {
        Some(27u8)
    } else if name == "skip"@ {
        Some(28u8)
    } else if name == "sys"@ {
        Some(29u8)
    } else if name == "kret"@ {
        Some(30u8)
    } else if name == "gsp"@ {
        Some(31u8)
    } else if name == "pnk"@ {
        Some(32u8)
    } else if name == "dbg"@ {
        Some(33u8)
    } else if name == "shrw"@ {
        Some(34u8)
    } else if name == "hlt"@ {
        Some(63u8)
    } else {
        None
    }
}

/// The 4-bit encoding of a two-operand addressing mode.
pub open spec fn dbmode_bits(m: DoubleMode) -> u8 {
    match m {
        DoubleMode::Rr => 0u8,
        DoubleMode::Rm => 1u8,
        DoubleMode::Mr => 2u8,
        DoubleMode::Ri => 3u8,
        DoubleMode::Rmi => 4u8,
        DoubleMode::Mir => 5u8,
    }
}

/// The 4-bit encoding of a one-operand addressing mode.
pub open spec fn smode_bits(m: SingleMode) -> u8 {
    match m {
        SingleMode::R => 0u8,
        SingleMode::M => 1u8,
        SingleMode::I => 2u8,
        SingleMode::Mi => 3u8,
    }
}

/// The value of a numeric expression. A reference resolves through the
/// label table; in the sizing pass an unknown name counts as zero, in the
/// emitting pass it is an error (`None`). Arithmetic that leaves the 64-bit
/// range is an error.
pub open spec fn eval_num_s(
    e: NumExprV,
    labels: Seq<(Seq<char>, u16)>,
    counting: bool,
) -> Option<i64>
    decreases e,
{
    match e {
        NumExprV::Raw(i) => Some(i),
        NumExprV::Reference(r) => match lookup_label(labels, r) {
            Some(u) => Some(u as i64),
            None => if counting {
                Some(0i64)
            } else {
                None
            },
        },
        NumExprV::Function(f) => match *f {
            FunctionV::Hi(n) => match eval_num_s(*n, labels, counting) {
                Some(v) => Some((((v as u16) / 256) as u8) as i64),
                None => None,
            },
            FunctionV::Lo(n) => match eval_num_s(*n, labels, counting) {
                Some(v) => Some((((v as u16) % 256) as u8) as i64),
                None => None,
            },
        },
        NumExprV::BinaryOperation { a, operand, b } => {
            match (eval_num_s(*a, labels, counting), eval_num_s(*b, labels, counting)) {
                (Some(x), Some(y)) => match operand {
                    BinaryOp::Add => x.checked_add(y),
                    BinaryOp::Sub => x.checked_sub(y),
                    BinaryOp::Mul => x.checked_mul(y),
                    BinaryOp::Div => x.checked_div(y),
                },
                _ => None,
            }
        },
    }
}

/// The value of a directive argument: only numeric expressions have one.
pub open spec fn eval_expr_s(e: ExprV, labels: Seq<(Seq<char>, u16)>, counting: bool) -> Option<
    i64,
> {
    match e {
        ExprV::Num(n) => eval_num_s(n, labels, counting),
        _ => None,
    }
}

/// The two bytes of a 16-bit address operand, high byte first. Only a
/// reference, a literal or a binary operation may stand as an address.
pub open spec fn addr_bytes_s(e: NumExprV, labels: Seq<(Seq<char>, u16)>, counting: bool) -> Option<
    (u8, u8),
> {
    match e {
        NumExprV::Reference(r) => match lookup_label(labels, r) {
            Some(u) => Some(((u / 256) as u8, (u % 256) as u8)),
            None => if counting {
                Some((0u8, 0u8))
            } else {
                None
            },
        },
        NumExprV::Raw(i) => Some((((i as u16) / 256) as u8, ((i as u16) % 256) as u8)),
        NumExprV::Function(_) => None,
        NumExprV::BinaryOperation { a, operand, b } => {
            match eval_num_s(e, labels, counting) {
                Some(v) => Some((((v as u16) / 256) as u8, ((v as u16) % 256) as u8)),
                None => None,
            }
        },
    }
}


/// The register index an operand encodes, when it is one of the eight
/// registers.
pub open spec fn reg_of_operand(op: OperandV) -> Option<u8> {
    match op {
        OperandV::Register(n) => if n < 8 {
            Some(n)
        } else {
            None
        },
        _ => None,
    }
}

/// The immediate bytes of an operand: two address bytes for a 16-bit
/// width, one byte for an 8-bit width, nothing for `Any`. An 8-bit
/// immediate may be a literal, an extractor call, or (where
/// `allow_const_ref` holds) the name of a constant -- never a label.
pub open spec fn imm_bytes_s(
    op: OperandV,
    len: OperandLength,
    labels: Seq<(Seq<char>, u16)>,
    consts: Seq<(Seq<char>, u8)>,
    counting: bool,
    allow_const_ref: bool,
) -> Option<Seq<u8>> {
    match len {
        OperandLength::Unsigned16 => match op {
            OperandV::Immediate(ExprV::Num(ne)) => match addr_bytes_s(ne, labels, counting) {
                Some((m1, m2)) => Some(seq![m1, m2]),
                None => None,
            },
            _ => None,
        },
        OperandLength::Unsigned8 => match op {
            OperandV::Immediate(ExprV::Num(NumExprV::Raw(i))) => Some(seq![i as u8]),
            OperandV::Immediate(ExprV::Num(NumExprV::Function(f))) => match eval_num_s(
                NumExprV::Function(f),
                labels,
                counting,
            ) {
                Some(v) => Some(seq![v as u8]),
                None => None,
            },
            OperandV::Immediate(ExprV::Num(NumExprV::Reference(r))) => if !allow_const_ref {
                None
            } else if lookup_label(labels, r) is Some {
                None
            } else {
                match lookup_const(consts, r) {
                    Some(c) => Some(seq![c]),
                    None => if counting {
                        Some(seq![0u8])
                    } else {
                        None
                    },
                }
            },
            _ => None,
        },
        OperandLength::Any => Some(Seq::<u8>::empty()),
        OperandLength::Zero => None,
    }
}

/// The two header bytes of an instruction.
pub open spec fn header_bytes_s(op: u8, modebits: u8, reg1: u8, reg2: u8) -> Seq<u8> {
    seq![
        encode_b0(op as int, modebits as int) as u8,
        encode_b1(modebits as int, reg1 as int, reg2 as int) as u8,
    ]
}

/// The bytes of a two-operand instruction. An `Rmi` or `Mir` mode widens
/// the immediate to 16 bits.
pub open spec fn assemble_double_op_s(
    opid: Seq<char>,
    mode: DoubleMode,
    dest: OperandV,
    src: OperandV,
    operand_length: OperandLength,
    labels: Seq<(Seq<char>, u16)>,
    consts: Seq<(Seq<char>, u8)>,
    counting: bool,
) -> Option<Seq<u8>> {
    let ol = if mode == DoubleMode::Rmi || mode == DoubleMode::Mir {
        OperandLength::Unsigned16
    } else {
        operand_length
    };
    match opcode_of_opid(opid) {
        None => None,
        Some(op) => {
            let mb = dbmode_bits(mode);
            if mode == DoubleMode::Rr || mode == DoubleMode::Rm || mode == DoubleMode::Mr {
                match (reg_of_operand(dest), reg_of_operand(src)) {
                    (Some(r1), Some(r2)) => Some(header_bytes_s(op, mb, r1, r2)),
                    _ => None,
                }
            } else if mode == DoubleMode::Ri || mode == DoubleMode::Rmi {
                match reg_of_operand(dest) {
                    None => None,
                    Some(r1) => match imm_bytes_s(src, ol, labels, consts, counting, true) {
                        Some(imm) => Some(header_bytes_s(op, mb, r1, 0) + imm),
                        None => None,
                    },
                }
            } else {
                match reg_of_operand(src) {
                    None => None,
                    Some(r2) => match imm_bytes_s(dest, ol, labels, consts, counting, true) {
                        Some(imm) => Some(header_bytes_s(op, mb, 0, r2) + imm),
                        None => None,
                    },
                }
            }
        },
    }
}

/// The bytes of a one-operand instruction. A memory operand written as an
/// immediate widens to 16 bits.
pub open spec fn assemble_single_op_s(
    opid: Seq<char>,
    mode: SingleMode,
    operand: OperandV,
    operand_length: OperandLength,
    labels: Seq<(Seq<char>, u16)>,
    consts: Seq<(Seq<char>, u8)>,
    counting: bool,
) -> Option<Seq<u8>> {
    let ol = if mode == SingleMode::Mi && operand_length == OperandLength::Unsigned8 {
        OperandLength::Unsigned16
    } else {
        operand_length
    };
    match opcode_of_opid(opid) {
        None => None,
        Some(op) => {
            let mb = smode_bits(mode);
            if mode == SingleMode::R {
                match reg_of_operand(operand) {
                    Some(r1) => Some(header_bytes_s(op, mb, r1, 0)),
                    None => None,
                }
            } else if mode == SingleMode::M {
                match operand {
                    OperandV::Register(_) => match reg_of_operand(operand) {
                        Some(r1) => Some(header_bytes_s(op, mb, r1, 0)),
                        None => None,
                    },
                    _ => match imm_bytes_s(operand, ol, labels, consts, counting, false) {
                        Some(imm) => Some(header_bytes_s(op, mb, 0, 0) + imm),
                        None => None,
                    },
                }
            } else if mode == SingleMode::I {
                match imm_bytes_s(operand, ol, labels, consts, counting, false) {
                    Some(imm) => Some(header_bytes_s(op, mb, 0, 0) + imm),
                    None => None,
                }
            } else {
                match operand {
                    OperandV::Immediate(ExprV::Num(ne)) => match addr_bytes_s(
                        ne,
                        labels,
                        counting,
                    ) {
                        Some((m1, m2)) => Some(header_bytes_s(op, mb, 0, 0) + seq![m1, m2]),
                        None => None,
                    },
                    _ => None,
                }
            }
        },
    }
}

/// The value of each `.byte` argument, each in one byte.
pub open spec fn byte_args_s(
    args: Seq<ExprV>,
    labels: Seq<(Seq<char>, u16)>,
    counting: bool,
) -> Option<Seq<u8>>
    decreases args.len(),
{
    if args.len() == 0 {
        Some(Seq::<u8>::empty())
    } else {
        match byte_args_s(args.drop_last(), labels, counting) {
            None => None,
            Some(rest) => match eval_expr_s(args.last(), labels, counting) {
                Some(v) => if 0 <= v <= 255 {
                    Some(rest.push(v as u8))
                } else {
                    None
                },
                None => None,
            },
        }
    }
}

/// A directive: `org` moves the emit cursor, `byte` emits literal bytes,
/// `const` names a byte; anything else is unsupported.
pub open spec fn signal_s(name: Seq<char>, args: Seq<ExprV>, a: AsmView) -> Option<
    (Seq<u8>, AsmView),
> {
    if name == "org"@ {
        if args.len() != 1 {
            None
        } else {
            match args[0] {
                ExprV::Num(ne) => match ne {
                    NumExprV::Function(_) => match eval_num_s(ne, a.labels, a.counting) {
                        Some(v) => Some(
                            (
                                Seq::<u8>::empty(),
                                AsmView { pc: v as u16, current_pos: v as u16, ..a },
                            ),
                        ),
                        None => None,
                    },
                    NumExprV::BinaryOperation { .. } => match eval_num_s(ne, a.labels, a.counting) {
                        Some(v) => Some(
                            (
                                Seq::<u8>::empty(),
                                AsmView { pc: v as u16, current_pos: v as u16, ..a },
                            ),
                        ),
                        None => None,
                    },
                    NumExprV::Raw(i) => Some(
                        (
                            Seq::<u8>::empty(),
                            AsmView { pc: i as u16, current_pos: i as u16, ..a },
                        ),
                    ),
                    NumExprV::Reference(r) => match lookup_label(a.labels, r) {
                        Some(u) => Some(
                            (Seq::<u8>::empty(), AsmView { pc: u, current_pos: u, ..a }),
                        ),
                        None => if a.counting {
                            Some((Seq::<u8>::empty(), AsmView { pc: 0, current_pos: 0, ..a }))
                        } else {
                            None
                        },
                    },
                },
                _ => None,
            }
        }
    } else if name == "byte"@ {
        if args.len() == 0 {
            None
        } else {
            match byte_args_s(args, a.labels, a.counting) {
                Some(bytes) => Some((bytes, a)),
                None => None,
            }
        }
    } else if name == "const"@ {
        if args.len() != 2 {
            None
        } else {
            match args[0] {
                ExprV::Str(StrExprV::Raw(s)) => if lookup_label(a.labels, s) is Some {
                    None
                } else {
                    match eval_expr_s(args[1], a.labels, a.counting) {
                        Some(v) => if 0 <= v <= 255 {
                            Some(
                                (
                                    Seq::<u8>::empty(),
                                    AsmView { consts: a.consts.push((s, v as u8)), ..a },
                                ),
                            )
                        } else {
                            None
                        },
                        None => None,
                    }
                },
                _ => None,
            }
        }
    } else {
        None
    }
}

/// One statement's bytes and its effect on the tables and the cursor.
pub open spec fn stmt_step_s(st: StmtV, a: AsmView) -> Option<(Seq<u8>, AsmView)> {
    match st {
        StmtV::DoubleOperation { opid, mode, dest, src, operand_length } => {
            match assemble_double_op_s(
                opid,
                mode,
                dest,
                src,
                operand_length,
                a.labels,
                a.consts,
                a.counting,
            ) {
                Some(b) => Some((b, a)),
                None => None,
            }
        },
        StmtV::SingleOperation { opid, mode, operand, operand_length } => {
            match assemble_single_op_s(
                opid,
                mode,
                operand,
                operand_length,
                a.labels,
                a.consts,
                a.counting,
            ) {
                Some(b) => Some((b, a)),
                None => None,
            }
        },
        StmtV::ZeroOperation { opid } => match opcode_of_opid(opid) {
            Some(op) => Some((header_bytes_s(op, 0, 0, 0), a)),
            None => None,
        },
        StmtV::Label(s) => if lookup_const(a.consts, s) is Some {
            None
        } else {
            Some((Seq::<u8>::empty(), AsmView { labels: a.labels.push((s, a.pc)), ..a }))
        },
        StmtV::Signal { name, args } => signal_s(name, args, a),
        _ => Some((Seq::<u8>::empty(), a)),
    }
}

/// Emitted bytes join the segment still open at their address, or start a
/// new one.
pub open spec fn append_seg(segs: Seq<(u16, Seq<u8>)>, at: u16, bytes: Seq<u8>) -> Seq<
    (u16, Seq<u8>),
> {
    if segs.len() > 0 && segs.last().0 == at {
        segs.update(segs.len() - 1, (at, segs.last().1 + bytes))
    } else {
        segs.push((at, bytes))
    }
}

/// One pass over the program from statement `i`: the final state and the
/// segments gathered (the sizing pass gathers none).
pub open spec fn walk_s(
    prog: Seq<StmtV>,
    i: nat,
    a: AsmView,
    segs: Seq<(u16, Seq<u8>)>,
) -> Option<(AsmView, Seq<(u16, Seq<u8>)>)>
    decreases prog.len() - i,
{
    if i >= prog.len() {
        Some((a, segs))
    } else {
        match stmt_step_s(prog[i as int], a) {
            None => None,
            Some((bytes, a1)) => {
                if bytes.len() > 0 {
                    let a2 = AsmView {
                        pc: vstd::wrapping::u16_specs::wrapping_add(
                            a1.pc,
                            ((bytes.len() % 0x10000) as u16),
                        ),
                        ..a1
                    };
                    let segs2 = if !a1.counting {
                        append_seg(segs, a1.current_pos, bytes)
                    } else {
                        segs
                    };
                    walk_s(prog, i + 1, a2, segs2)
                } else {
                    walk_s(prog, i + 1, a1, segs)
                }
            },
        }
    }
}

/// The state of the assembler.
#[verifier::ext_equal]
pub ghost struct AsmView {
    pub pc: u16,
    pub current_pos: u16,
    pub labels: Seq<(Seq<char>, u16)>,
    pub consts: Seq<(Seq<char>, u8)>,
    pub program: Seq<StmtV>,
    pub counting: bool,
}

/// The assembler: the emit cursor, the name tables, and the program.
#[derive(Debug)]
pub struct Assembler {
    pc: u16,
    current_pos: u16,
    labels: Vec<(String, u16)>,
    consts: Vec<(String, u8)>,
    program: Vec<Stmt>,
    mode: AssembleMode,
}

impl View for Assembler {
    type V = AsmView;

    closed spec fn view(&self) -> AsmView {
        AsmView {
            pc: self.pc,
            current_pos: self.current_pos,
            labels: Seq::new(self.labels@.len(), |i: int| (self.labels@[i].0@, self.labels@[i].1)),
            consts: Seq::new(self.consts@.len(), |i: int| (self.consts@[i].0@, self.consts@[i].1)),
            program: Seq::new(self.program@.len(), |i: int| self.program@[i]@),
            counting: self.mode == AssembleMode::CountBytes,
        }
    }
}

impl Assembler {
    /// A fresh assembler over a program, ready for the sizing pass at
    /// address zero.
    pub fn new(program: Vec<Stmt>) -> (a: Assembler)
        ensures
            a@.pc == 0,
            a@.current_pos == 0,
            a@.labels == Seq::<(Seq<char>, u16)>::empty(),
            a@.consts == Seq::<(Seq<char>, u8)>::empty(),
            a@.program == Seq::new(program@.len(), |i: int| program@[i]@),
            a@.counting,
    {
        let a = Assembler {
            pc: 0,
            current_pos: 0,
            labels: Vec::new(),
            consts: Vec::new(),
            program,
            mode: AssembleMode::CountBytes,
        };
        proof {
            assert(a@.labels =~= Seq::<(Seq<char>, u16)>::empty());
            assert(a@.consts =~= Seq::<(Seq<char>, u8)>::empty());
        }
        a
    }

    /// The opcode of a mnemonic.
    fn opcode_from_opid(&self, opid: &str) -> (r: Result<u8, AssemblerError>)
        ensures
            match opcode_of_opid(opid@) {
                Some(op) => r matches Ok(o) && o == op,
                None => r is Err,
            },
            r matches Ok(op) ==> op < 64,
    {
        let r: Option<u8> = if str_eq(opid, "nop") {
            Some(0)
        } else if str_eq(opid, "mov") {
            Some(1)
        } else if str_eq(opid, "add") {
            Some(2)
        } else if str_eq(opid, "sub") {
            Some(3)
        } else if str_eq(opid, "mul") {
            Some(4)
        } else if str_eq(opid, "div") {
            Some(5)
        } else if str_eq(opid, "mod") {
            Some(6)
        } else if str_eq(opid, "and") {
            Some(7)
        } else if str_eq(opid, "or") {
            Some(8)
        } else if str_eq(opid, "xor") {
            Some(9)
        } else if str_eq(opid, "not") {
            Some(10)
        } else if str_eq(opid, "jmp") {
            Some(11)
        } else if str_eq(opid, "jz") {
            Some(12)
        } else if str_eq(opid, "jc") {
            Some(13)
        } else if str_eq(opid, "jo") {
            Some(14)
        } else if str_eq(opid, "js") {
            Some(15)
        } else if str_eq(opid, "jnz") {
            Some(16)
        } else if str_eq(opid, "jg") {
            Some(17)
        } else if str_eq(opid, "jl") {
            Some(18)
        } else if str_eq(opid, "cmp") {
            Some(19)
        } else if str_eq(opid, "push") {
            Some(20)
        } else if str_eq(opid, "pop") {
            Some(21)
        } else if str_eq(opid, "call") {
            Some(22)
        } else if str_eq(opid, "ret") {
            Some(23)
        } else if str_eq(opid, "shl") {
            Some(24)
        } else if str_eq(opid, "shr") {
            Some(25)
        } else if str_eq(opid, "sar") {
            Some(26)
        } else if str_eq(opid, "ssp") {
            Some(27)
        } else if str_eq(opid, "skip") {
            Some(28)
        } else if str_eq(opid, "sys") {
            Some(29)
        } else if str_eq(opid, "kret") {
            Some(30)
        } else if str_eq(opid, "gsp") {
            Some(31)
        } else if str_eq(opid, "pnk") {
            Some(32)
        } else if str_eq(opid, "dbg") {
            Some(33)
        } else if str_eq(opid, "shrw") {
            Some(34)
        } else if str_eq(opid, "hlt") {
            Some(63)
        } else {
            None
        };
        match r {
            Some(op) => Ok(op),
            None => Err(AssemblerError { message: String::from_str("Unable to parse opcode") }),
        }
    }

    /// The 4-bit encoding of a two-operand mode.
    fn dbmode_convert(&self, mode: DoubleMode) -> (r: u8)
        ensures
            r == dbmode_bits(mode),
            r < 6,
    {
        match mode {
            DoubleMode::Rr => 0,
            DoubleMode::Rm => 1,
            DoubleMode::Mr => 2,
            DoubleMode::Ri => 3,
            DoubleMode::Rmi => 4,
            DoubleMode::Mir => 5,
        }
    }

    /// The 4-bit encoding of a one-operand mode.
    fn smode_convert(&self, mode: SingleMode) -> (r: u8)
        ensures
            r == smode_bits(mode),
            r < 4,
    {
        match mode {
            SingleMode::R => 0,
            SingleMode::M => 1,
            SingleMode::I => 2,
            SingleMode::Mi => 3,
        }
    }

    /// The index of a register operand; anything else, or a register the
    /// machine does not have, is an error.
    fn register_from_operand(&self, op: &Operand) -> (r: Result<u8, AssemblerError>)
        ensures
            match op@ {
                OperandV::Register(n) => if n < 8 {
                    r matches Ok(v) && v == n
                } else {
                    r is Err
                },
                _ => r is Err,
            },
    {
        match op {
            Operand::Register(num) => {
                if *num < 8 {
                    Ok(*num)
                } else {
                    Err(AssemblerError { message: String::from_str("register out of range") })
                }
            },
            _ => Err(AssemblerError { message: String::from_str("Expected register") }),
        }
    }

    /// The address of a label; in the sizing pass an unknown label counts
    /// as zero.
    fn get_label(&self, label: &str) -> (r: Result<u16, AssemblerError>)
        ensures
            match lookup_label(self@.labels, label@) {
                Some(u) => r matches Ok(v) && v == u,
                None => if self@.counting {
                    r matches Ok(v) && v == 0
                } else {
                    r is Err
                },
            },
    {
        let n = self.labels.len();
        let mut i: usize = n;
        proof {
            assert(self@.labels.take(n as int) =~= self@.labels);
        }
        while i > 0
            invariant
                i <= n,
                n == self@.labels.len(),
                lookup_label(self@.labels, label@) == lookup_label(
                    self@.labels.take(i as int),
                    label@,
                ),
            decreases i,
        {
            i = i - 1;
            proof {
                assert(self@.labels.take(i + 1).last() == self@.labels[i as int]);
                assert(self@.labels.take(i + 1).drop_last() =~= self@.labels.take(i as int));
            }
            if str_eq(self.labels[i].0.as_str(), label) {
                return Ok(self.labels[i].1);
            }
        }
        proof {
            assert(self@.labels.take(0) =~= Seq::<(Seq<char>, u16)>::empty());
        }
        if matches!(self.mode, AssembleMode::CountBytes) {
            Ok(0)
        } else {
            Err(AssemblerError { message: String::from_str("Attempted to get nonexistent label") })
        }
    }

    /// The value of a constant; in the sizing pass an unknown constant
    /// counts as zero.
    fn get_const(&self, label: &str) -> (r: Result<u8, AssemblerError>)
        ensures
            match lookup_const(self@.consts, label@) {
                Some(u) => r matches Ok(v) && v == u,
                None => if self@.counting {
                    r matches Ok(v) && v == 0
                } else {
                    r is Err
                },
            },
    {
        let n = self.consts.len();
        let mut i: usize = n;
        proof {
            assert(self@.consts.take(n as int) =~= self@.consts);
        }
        while i > 0
            invariant
                i <= n,
                n == self@.consts.len(),
                lookup_const(self@.consts, label@) == lookup_const(
                    self@.consts.take(i as int),
                    label@,
                ),
            decreases i,
        {
            i = i - 1;
            proof {
                assert(self@.consts.take(i + 1).last() == self@.consts[i as int]);
                assert(self@.consts.take(i + 1).drop_last() =~= self@.consts.take(i as int));
            }
            if str_eq(self.consts[i].0.as_str(), label) {
                return Ok(self.consts[i].1);
            }
        }
        proof {
            assert(self@.consts.take(0) =~= Seq::<(Seq<char>, u8)>::empty());
        }
        if matches!(self.mode, AssembleMode::CountBytes) {
            Ok(0)
        } else {
            Err(AssemblerError { message: String::from_str("Attempted to get nonexistent const") })
        }
    }

    /// Whether a label is known; used to keep labels and constants apart.
    fn has_label(&self, name: &str) -> (r: bool)
        ensures
            r == (lookup_label(self@.labels, name@) is Some),
    {
        match self.get_label_probe(name) {
            Some(_) => true,
            None => false,
        }
    }

    /// Looks a label up without the sizing-pass default.
    fn get_label_probe(&self, label: &str) -> (r: Option<u16>)
        ensures
            r == lookup_label(self@.labels, label@),
    {
        let n = self.labels.len();
        let mut i: usize = n;
        proof {
            assert(self@.labels.take(n as int) =~= self@.labels);
        }
        while i > 0
            invariant
                i <= n,
                n == self@.labels.len(),
                lookup_label(self@.labels, label@) == lookup_label(
                    self@.labels.take(i as int),
                    label@,
                ),
            decreases i,
        {
            i = i - 1;
            proof {
                assert(self@.labels.take(i + 1).last() == self@.labels[i as int]);
                assert(self@.labels.take(i + 1).drop_last() =~= self@.labels.take(i as int));
            }
            if str_eq(self.labels[i].0.as_str(), label) {
                return Some(self.labels[i].1);
            }
        }
        proof {
            assert(self@.labels.take(0) =~= Seq::<(Seq<char>, u16)>::empty());
        }
        None
    }

    /// Looks a constant up without the sizing-pass default.
    fn get_const_probe(&self, name: &str) -> (r: Option<u8>)
        ensures
            r == lookup_const(self@.consts, name@),
    {
        let n = self.consts.len();
        let mut i: usize = n;
        proof {
            assert(self@.consts.take(n as int) =~= self@.consts);
        }
        while i > 0
            invariant
                i <= n,
                n == self@.consts.len(),
                lookup_const(self@.consts, name@) == lookup_const(
                    self@.consts.take(i as int),
                    name@,
                ),
            decreases i,
        {
            i = i - 1;
            proof {
                assert(self@.consts.take(i + 1).last() == self@.consts[i as int]);
                assert(self@.consts.take(i + 1).drop_last() =~= self@.consts.take(i as int));
            }
            if str_eq(self.consts[i].0.as_str(), name) {
                return Some(self.consts[i].1);
            }
        }
        proof {
            assert(self@.consts.take(0) =~= Seq::<(Seq<char>, u8)>::empty());
        }
        None
    }

    /// Sets the emit cursor.
    fn set_pc(&mut self, new_pc: u16)
        ensures
            final(self)@ == (AsmView { pc: new_pc, ..old(self)@ }),
    {
        self.pc = new_pc;
    }

    /// Moves the emit cursor forward, wrapping at the top of the address
    /// space.
    fn inc_pc(&mut self, amt: u16)
        ensures
            final(self)@ == (AsmView {
                pc: vstd::wrapping::u16_specs::wrapping_add(old(self)@.pc, amt),
                ..old(self)@
            }),
    {
        self.pc = self.pc.wrapping_add(amt);
    }

    /// Records a label at the current emit cursor; a name already used for
    /// a constant is an error.
    fn label(&mut self, label: String) -> (r: Result<Vec<u8>, AssemblerError>)
        ensures
            if lookup_const(old(self)@.consts, label@) is Some {
                r is Err && final(self)@ == old(self)@
            } else {
                r matches Ok(v) && v@ == Seq::<u8>::empty() && final(self)@ == (AsmView {
                    labels: old(self)@.labels.push((label@, old(self)@.pc)),
                    ..old(self)@
                })
            },
    {
        let known = match self.get_const_probe(label.as_str()) {
            Some(_) => true,
            None => false,
        };
        if known {
            return Err(
                AssemblerError { message: String::from_str("Attempt to create label w/ constant") },
            );
        }
        let ghost before = self@;
        let ghost name_view = label@;
        let pc = self.pc;
        self.labels.push((label, pc));
        proof {
            assert(self@.labels =~= before.labels.push((name_view, before.pc)));
            assert(self@ =~= (AsmView {
                labels: before.labels.push((name_view, before.pc)),
                ..before
            }));
        }
        Ok(Vec::new())
    }
}


/// The segment list as sequences.
pub open spec fn seg_views(v: Seq<(u16, Vec<u8>)>) -> Seq<(u16, Seq<u8>)> {
    Seq::new(v.len(), |i: int| (v[i].0, v[i].1@))
}

/// The argument list of a directive as values.
pub open spec fn expr_views(v: Seq<Expr>) -> Seq<ExprV> {
    Seq::new(v.len(), |i: int| v[i]@)
}

/// A bad argument anywhere spoils the whole `.byte` list.
proof fn lemma_byte_args_prefix(
    args: Seq<ExprV>,
    k: nat,
    labels: Seq<(Seq<char>, u16)>,
    counting: bool,
)
    requires
        k <= args.len(),
    ensures
        byte_args_s(args.take(k as int), labels, counting) is None ==> byte_args_s(
            args,
            labels,
            counting,
        ) is None,
    decreases args.len() - k,
{
    if k == args.len() {
        assert(args.take(k as int) =~= args);
    } else {
        lemma_byte_args_prefix(args, k + 1, labels, counting);
        assert(args.take(k as int + 1).drop_last() =~= args.take(k as int));
    }
}

/// What a directive asks for.
enum SignalOutcome {
    SetPc(u16),
    Emit(Vec<u8>),
    DefConst(String, u8),
}

/// Joins emitted bytes onto the segment open at their address, or starts a
/// new segment.
fn append_segment(segs: &mut Vec<(u16, Vec<u8>)>, at: u16, bytes: Vec<u8>)
    ensures
        seg_views(final(segs)@) == append_seg(seg_views(old(segs)@), at, bytes@),
{
    let ghost before = seg_views(segs@);
    let n = segs.len();
    let mut extend = false;
    if n > 0 {
        if segs[n - 1].0 == at {
            extend = true;
        }
    }
    if extend {
        let mut last = match segs.pop() {
            Some(l) => l,
            None => {
                return ;
            },
        };
        let mut b = bytes;
        last.1.append(&mut b);
        segs.push(last);
        proof {
            assert(seg_views(segs@) =~= before.update(
                before.len() - 1,
                (at, before.last().1 + bytes@),
            ));
        }
    } else {
        segs.push((at, bytes));
        proof {
            assert(seg_views(segs@) =~= before.push((at, bytes@)));
        }
    }
}

impl Assembler {
    /// The value of a numeric expression against the current tables.
    fn eval_num(&self, e: &NumExpr) -> (r: Result<i64, AssemblerError>)
        ensures
            match eval_num_s(e@, self@.labels, self@.counting) {
                Some(v) => r matches Ok(x) && x == v,
                None => r is Err,
            },
        decreases e,
    {
        match e {
            NumExpr::Raw(i) => Ok(*i),
            NumExpr::Reference(rf) => match self.get_label(rf.as_str()) {
                Ok(u) => Ok(u as i64),
                Err(er) => Err(er),
            },
            NumExpr::Function(f) => {
                let inner: &NumExpr = match &**f {
                    Function::Hi(n) => n,
                    Function::Lo(n) => n,
                };
                let v = match self.eval_num(inner) {
                    Ok(v) => v,
                    Err(er) => {
                        return Err(er);
                    },
                };
                let w = v as u16;
                if matches!(&**f, Function::Hi(_)) {
                    Ok(((w / 256) as u8) as i64)
                } else {
                    Ok(((w % 256) as u8) as i64)
                }
            },
            NumExpr::BinaryOperation { a, operand, b } => {
                let x = match self.eval_num(a) {
                    Ok(v) => v,
                    Err(er) => {
                        return Err(er);
                    },
                };
                let y = match self.eval_num(b) {
                    Ok(v) => v,
                    Err(er) => {
                        return Err(er);
                    },
                };
                let res: Option<i64> = match operand {
                    BinaryOp::Add => x.checked_add(y),
                    BinaryOp::Sub => x.checked_sub(y),
                    BinaryOp::Mul => x.checked_mul(y),
                    BinaryOp::Div => x.checked_div(y),
                };
                match res {
                    Some(v) => Ok(v),
                    None => Err(
                        AssemblerError {
                            message: String::from_str("numeric expression out of range"),
                        },
                    ),
                }
            },
        }
    }

    /// The high or low byte named by an extractor call.
    fn eval_func(&self, func: &Function) -> (r: Result<i64, AssemblerError>)
        ensures
            match eval_num_s(
                NumExprV::Function(Box::new(function_view(*func))),
                self@.labels,
                self@.counting,
            ) {
                Some(v) => r matches Ok(x) && x == v,
                None => r is Err,
            },
    {
        let inner: &NumExpr = match func {
            Function::Hi(n) => n,
            Function::Lo(n) => n,
        };
        let v = match self.eval_num(inner) {
            Ok(v) => v,
            Err(er) => {
                return Err(er);
            },
        };
        let w = v as u16;
        if matches!(func, Function::Hi(_)) {
            Ok(((w / 256) as u8) as i64)
        } else {
            Ok(((w % 256) as u8) as i64)
        }
    }

    /// The value of a binary operation on two evaluated sub-expressions.
    fn eval_num_bin_op(&self, a: &NumExpr, op: BinaryOp, b: &NumExpr) -> (r: Result<
        i64,
        AssemblerError,
    >)
        ensures
            match eval_num_s(
                NumExprV::BinaryOperation {
                    a: Box::new(a@),
                    operand: op,
                    b: Box::new(b@),
                },
                self@.labels,
                self@.counting,
            ) {
                Some(v) => r matches Ok(x) && x == v,
                None => r is Err,
            },
    {
        let x = match self.eval_num(a) {
            Ok(v) => v,
            Err(er) => {
                return Err(er);
            },
        };
        let y = match self.eval_num(b) {
            Ok(v) => v,
            Err(er) => {
                return Err(er);
            },
        };
        let res: Option<i64> = match op {
            BinaryOp::Add => x.checked_add(y),
            BinaryOp::Sub => x.checked_sub(y),
            BinaryOp::Mul => x.checked_mul(y),
            BinaryOp::Div => x.checked_div(y),
        };
        match res {
            Some(v) => Ok(v),
            None => Err(
                AssemblerError { message: String::from_str("numeric expression out of range") },
            ),
        }
    }

    /// The value of a directive argument.
    fn eval_expr(&self, expr: &Expr) -> (r: Result<i64, AssemblerError>)
        ensures
            match eval_expr_s(expr@, self@.labels, self@.counting) {
                Some(v) => r matches Ok(x) && x == v,
                None => r is Err,
            },
    {
        match expr {
            Expr::Num(n) => self.eval_num(n),
            _ => Err(
                AssemblerError { message: String::from_str("Couldn't turn value into a number") },
            ),
        }
    }

    /// The two bytes of an address operand, high byte first.
    fn get_addr_from_numexpr(&self, numexpr: &NumExpr) -> (r: Result<(u8, u8), AssemblerError>)
        ensures
            match addr_bytes_s(numexpr@, self@.labels, self@.counting) {
                Some(p) => r matches Ok(q) && q == p,
                None => r is Err,
            },
    {
        let mem_addr: u16 = match numexpr {
            NumExpr::Reference(rf) => match self.get_label(rf.as_str()) {
                Ok(u) => u,
                Err(er) => {
                    return Err(er);
                },
            },
            NumExpr::Raw(i) => (*i) as u16,
            NumExpr::Function(_) => {
                return Err(
                    AssemblerError {
                        message: String::from_str("Function received when getting address"),
                    },
                );
            },
            NumExpr::BinaryOperation { a, operand, b } => {
                let v = match self.eval_num_bin_op(a, *operand, b) {
                    Ok(v) => v,
                    Err(er) => {
                        return Err(er);
                    },
                };
                v as u16
            },
        };
        Ok(((mem_addr / 256) as u8, (mem_addr % 256) as u8))
    }

    /// The immediate bytes of an operand of the given width.
    fn imm_bytes(&self, op: &Operand, len: OperandLength, allow_const_ref: bool) -> (r: Result<
        Vec<u8>,
        AssemblerError,
    >)
        ensures
            match imm_bytes_s(op@, len, self@.labels, self@.consts, self@.counting,
                allow_const_ref) {
                Some(bs) => r matches Ok(v) && v@ == bs,
                None => r is Err,
            },
    {
        match len {
            OperandLength::Unsigned16 => match op {
                Operand::Immediate(Expr::Num(ne)) => {
                    let (m1, m2) = match self.get_addr_from_numexpr(ne) {
                        Ok(p) => p,
                        Err(er) => {
                            return Err(er);
                        },
                    };
                    let mut v: Vec<u8> = Vec::new();
                    v.push(m1);
                    v.push(m2);
                    proof {
                        assert(v@ =~= seq![m1, m2]);
                    }
                    Ok(v)
                },
                _ => Err(
                    AssemblerError {
                        message: String::from_str("Expected 16-bit immediate operand."),
                    },
                ),
            },
            OperandLength::Unsigned8 => match op {
                Operand::Immediate(Expr::Num(NumExpr::Raw(i))) => {
                    let mut v: Vec<u8> = Vec::new();
                    v.push((*i) as u8);
                    proof {
                        assert(v@ =~= seq![(i as u8)]);
                    }
                    Ok(v)
                },
                Operand::Immediate(Expr::Num(NumExpr::Function(f))) => {
                    let x = match self.eval_func(f) {
                        Ok(x) => x,
                        Err(er) => {
                            return Err(er);
                        },
                    };
                    let mut v: Vec<u8> = Vec::new();
                    v.push(x as u8);
                    proof {
                        assert(v@ =~= seq![(x as u8)]);
                    }
                    Ok(v)
                },
                Operand::Immediate(Expr::Num(NumExpr::Reference(rf))) => {
                    if !allow_const_ref {
                        return Err(
                            AssemblerError {
                                message: String::from_str("Expected 8-bit immediate operand."),
                            },
                        );
                    }
                    if self.has_label(rf.as_str()) {
                        return Err(
                            AssemblerError {
                                message: String::from_str("Expected 8-bit immediate operand."),
                            },
                        );
                    }
                    let c = match self.get_const(rf.as_str()) {
                        Ok(c) => c,
                        Err(er) => {
                            return Err(er);
                        },
                    };
                    let mut v: Vec<u8> = Vec::new();
                    v.push(c);
                    proof {
                        assert(v@ =~= seq![c]);
                    }
                    Ok(v)
                },
                _ => Err(
                    AssemblerError {
                        message: String::from_str("Expected 8-bit immediate operand."),
                    },
                ),
            },
            OperandLength::Any => {
                let v: Vec<u8> = Vec::new();
                proof {
                    assert(v@ =~= Seq::<u8>::empty());
                }
                Ok(v)
            },
            OperandLength::Zero => Err(
                AssemblerError {
                    message: String::from_str(
                        "Received OperandLength of zero during immediate value request",
                    ),
                },
            ),
        }
    }

    /// The two header bytes.
    fn header(&self, op: u8, modebits: u8, reg1: u8, reg2: u8) -> (r: (u8, u8))
        requires
            op < 64,
            modebits < 16,
            reg1 < 8,
            reg2 < 8,
        ensures
            seq![r.0, r.1] == header_bytes_s(op, modebits, reg1, reg2),
    {
        let b0: u8 = op * 4 + modebits / 4;
        let b1: u8 = (modebits % 4) * 64 + reg1 * 8 + reg2;
        (b0, b1)
    }

    /// The two bytes of a zero-operand instruction.
    fn assemble_zero_op(&self, opid: &str) -> (r: Result<Vec<u8>, AssemblerError>)
        ensures
            match opcode_of_opid(opid@) {
                Some(op) => r matches Ok(v) && v@ == header_bytes_s(op, 0, 0, 0),
                None => r is Err,
            },
    {
        let op = match self.opcode_from_opid(opid) {
            Ok(op) => op,
            Err(er) => {
                return Err(er);
            },
        };
        let (b0, b1) = self.header(op, 0, 0, 0);
        let mut v: Vec<u8> = Vec::new();
        v.push(b0);
        v.push(b1);
        proof {
            assert(v@ =~= seq![b0, b1]);
        }
        Ok(v)
    }
}


/// A pass changes the cursor and the tables, never the program or which
/// pass it is.
proof fn lemma_walk_preserves(prog: Seq<StmtV>, i: nat, a: AsmView, segs: Seq<(u16, Seq<u8>)>)
    ensures
        walk_s(prog, i, a, segs) matches Some(t) ==> t.0.program == a.program && t.0.counting
            == a.counting,
    decreases prog.len() - i,
{
    if i < prog.len() {
        match stmt_step_s(prog[i as int], a) {
            None => {},
            Some((bytes, a1)) => {
                if bytes.len() > 0 {
                    let a2 = AsmView {
                        pc: vstd::wrapping::u16_specs::wrapping_add(
                            a1.pc,
                            ((bytes.len() % 0x10000) as u16),
                        ),
                        ..a1
                    };
                    let segs2 = if !a1.counting {
                        append_seg(segs, a1.current_pos, bytes)
                    } else {
                        segs
                    };
                    lemma_walk_preserves(prog, i + 1, a2, segs2);
                } else {
                    lemma_walk_preserves(prog, i + 1, a1, segs);
                }
            },
        }
    }
}

/// What the loop over statements does after encoding one.
enum StepAct {
    Emit,
    Lbl(String),
    Sig(SignalOutcome),
}

impl Assembler {
    /// The bytes of a two-operand instruction: the two header bytes, then
    /// the immediate its mode and width call for.
    fn assemble_double_op(&self, stmt: &Stmt) -> (r: Result<Vec<u8>, AssemblerError>)
        ensures
            match stmt@ {
                StmtV::DoubleOperation { opid, mode, dest, src, operand_length } => {
                    match assemble_double_op_s(
                        opid,
                        mode,
                        dest,
                        src,
                        operand_length,
                        self@.labels,
                        self@.consts,
                        self@.counting,
                    ) {
                        Some(bs) => r matches Ok(v) && v@ == bs,
                        None => r is Err,
                    }
                },
                _ => r is Err,
            },
    {
        match stmt {
            Stmt::DoubleOperation { opid, mode, dest, src, operand_length } => {
                let ol = if matches!(mode, DoubleMode::Rmi) || matches!(mode, DoubleMode::Mir) {
                    OperandLength::Unsigned16
                } else {
                    *operand_length
                };
                let op = match self.opcode_from_opid(opid.as_str()) {
                    Ok(op) => op,
                    Err(er) => {
                        return Err(er);
                    },
                };
                let mb = self.dbmode_convert(*mode);
                if matches!(mode, DoubleMode::Rr) || matches!(mode, DoubleMode::Rm) || matches!(
                    mode,
                    DoubleMode::Mr,
                ) {
                    let r1 = match self.register_from_operand(dest) {
                        Ok(r1) => r1,
                        Err(er) => {
                            return Err(er);
                        },
                    };
                    let r2 = match self.register_from_operand(src) {
                        Ok(r2) => r2,
                        Err(er) => {
                            return Err(er);
                        },
                    };
                    let (b0, b1) = self.header(op, mb, r1, r2);
                    let mut v: Vec<u8> = Vec::new();
                    v.push(b0);
                    v.push(b1);
                    proof {
                        assert(v@ =~= header_bytes_s(op, mb, r1, r2));
                    }
                    Ok(v)
                } else if matches!(mode, DoubleMode::Ri) || matches!(mode, DoubleMode::Rmi) {
                    let r1 = match self.register_from_operand(dest) {
                        Ok(r1) => r1,
                        Err(er) => {
                            return Err(er);
                        },
                    };
                    let mut imm = match self.imm_bytes(src, ol, true) {
                        Ok(i) => i,
                        Err(er) => {
                            return Err(er);
                        },
                    };
                    let ghost imm0 = imm@;
                    let (b0, b1) = self.header(op, mb, r1, 0);
                    let mut v: Vec<u8> = Vec::new();
                    v.push(b0);
                    v.push(b1);
                    v.append(&mut imm);
                    proof {
                        assert(v@ =~= header_bytes_s(op, mb, r1, 0) + imm0);
                    }
                    Ok(v)
                } else {
                    let r2 = match self.register_from_operand(src) {
                        Ok(r2) => r2,
                        Err(er) => {
                            return Err(er);
                        },
                    };
                    let mut imm = match self.imm_bytes(dest, ol, true) {
                        Ok(i) => i,
                        Err(er) => {
                            return Err(er);
                        },
                    };
                    let ghost imm0 = imm@;
                    let (b0, b1) = self.header(op, mb, 0, r2);
                    let mut v: Vec<u8> = Vec::new();
                    v.push(b0);
                    v.push(b1);
                    v.append(&mut imm);
                    proof {
                        assert(v@ =~= header_bytes_s(op, mb, 0, r2) + imm0);
                    }
                    Ok(v)
                }
            },
            _ => Err(AssemblerError { message: String::from_str("Unable to parse DoubleOperation") }),
        }
    }

    /// The bytes of a one-operand instruction.
    fn assemble_single_op(&self, stmt: &Stmt) -> (r: Result<Vec<u8>, AssemblerError>)
        ensures
            match stmt@ {
                StmtV::SingleOperation { opid, mode, operand, operand_length } => {
                    match assemble_single_op_s(
                        opid,
                        mode,
                        operand,
                        operand_length,
                        self@.labels,
                        self@.consts,
                        self@.counting,
                    ) {
                        Some(bs) => r matches Ok(v) && v@ == bs,
                        None => r is Err,
                    }
                },
                _ => r is Err,
            },
    {
        match stmt {
            Stmt::SingleOperation { opid, mode, operand, operand_length } => {
                let ol = if matches!(mode, SingleMode::Mi) && matches!(
                    operand_length,
                    OperandLength::Unsigned8,
                ) {
                    OperandLength::Unsigned16
                } else {
                    *operand_length
                };
                let op = match self.opcode_from_opid(opid.as_str()) {
                    Ok(op) => op,
                    Err(er) => {
                        return Err(er);
                    },
                };
                let mb = self.smode_convert(*mode);
                if matches!(mode, SingleMode::R) {
                    let r1 = match self.register_from_operand(operand) {
                        Ok(r1) => r1,
                        Err(er) => {
                            return Err(er);
                        },
                    };
                    let (b0, b1) = self.header(op, mb, r1, 0);
                    let mut v: Vec<u8> = Vec::new();
                    v.push(b0);
                    v.push(b1);
                    proof {
                        assert(v@ =~= header_bytes_s(op, mb, r1, 0));
                    }
                    Ok(v)
                } else if matches!(mode, SingleMode::M) {
                    if matches!(operand, Operand::Register(_)) {
                        let r1 = match self.register_from_operand(operand) {
                            Ok(r1) => r1,
                            Err(er) => {
                                return Err(er);
                            },
                        };
                        let (b0, b1) = self.header(op, mb, r1, 0);
                        let mut v: Vec<u8> = Vec::new();
                        v.push(b0);
                        v.push(b1);
                        proof {
                            assert(v@ =~= header_bytes_s(op, mb, r1, 0));
                        }
                        Ok(v)
                    } else {
                        let mut imm = match self.imm_bytes(operand, ol, false) {
                            Ok(i) => i,
                            Err(er) => {
                                return Err(er);
                            },
                        };
                        let ghost imm0 = imm@;
                        let (b0, b1) = self.header(op, mb, 0, 0);
                        let mut v: Vec<u8> = Vec::new();
                        v.push(b0);
                        v.push(b1);
                        v.append(&mut imm);
                        proof {
                            assert(v@ =~= header_bytes_s(op, mb, 0, 0) + imm0);
                        }
                        Ok(v)
                    }
                } else if matches!(mode, SingleMode::I) {
                    let mut imm = match self.imm_bytes(operand, ol, false) {
                        Ok(i) => i,
                        Err(er) => {
                            return Err(er);
                        },
                    };
                    let ghost imm0 = imm@;
                    let (b0, b1) = self.header(op, mb, 0, 0);
                    let mut v: Vec<u8> = Vec::new();
                    v.push(b0);
                    v.push(b1);
                    v.append(&mut imm);
                    proof {
                        assert(v@ =~= header_bytes_s(op, mb, 0, 0) + imm0);
                    }
                    Ok(v)
                } else {
                    match operand {
                        Operand::Immediate(Expr::Num(ne)) => {
                            let (m1, m2) = match self.get_addr_from_numexpr(ne) {
                                Ok(p) => p,
                                Err(er) => {
                                    return Err(er);
                                },
                            };
                            let (b0, b1) = self.header(op, mb, 0, 0);
                            let mut v: Vec<u8> = Vec::new();
                            v.push(b0);
                            v.push(b1);
                            v.push(m1);
                            v.push(m2);
                            proof {
                                assert(v@ =~= header_bytes_s(op, mb, 0, 0) + seq![m1, m2]);
                            }
                            Ok(v)
                        },
                        _ => Err(
                            AssemblerError {
                                message: String::from_str("Expected 16-bit immediate operand."),
                            },
                        ),
                    }
                }
            },
            _ => Err(AssemblerError { message: String::from_str("Unable to parse SingleOperation") }),
        }
    }

    /// What a directive asks for, without touching the state.
    fn signal_outcome(&self, name: &str, args: &Vec<Expr>) -> (r: Result<
        SignalOutcome,
        AssemblerError,
    >)
        ensures
            match signal_s(name@, expr_views(args@), self@) {
                None => r is Err,
                Some((bytes, a1)) => r matches Ok(oc) && match oc {
                    SignalOutcome::SetPc(p) => bytes.len() == 0 && a1 == (AsmView {
                        pc: p,
                        current_pos: p,
                        ..self@
                    }),
                    SignalOutcome::Emit(v) => v@ == bytes && a1 == self@,
                    SignalOutcome::DefConst(s, c) => bytes.len() == 0 && a1 == (AsmView {
                        consts: self@.consts.push((s@, c)),
                        ..self@
                    }),
                },
            },
    {
        if str_eq(name, "org") {
            if args.len() != 1 {
                return Err(
                    AssemblerError { message: String::from_str("org signal arg count incorrect") },
                );
            }
            let new_pos: u16 = match &args[0] {
                Expr::Num(ne) => match ne {
                    NumExpr::Reference(rf) => match self.get_label(rf.as_str()) {
                        Ok(u) => u,
                        Err(er) => {
                            return Err(er);
                        },
                    },
                    NumExpr::Raw(i) => (*i) as u16,
                    NumExpr::Function(f) => {
                        let v = match self.eval_func(f) {
                            Ok(v) => v,
                            Err(er) => {
                                return Err(er);
                            },
                        };
                        v as u16
                    },
                    NumExpr::BinaryOperation { a, operand, b } => {
                        let v = match self.eval_num_bin_op(a, *operand, b) {
                            Ok(v) => v,
                            Err(er) => {
                                return Err(er);
                            },
                        };
                        v as u16
                    },
                },
                _ => {
                    return Err(
                        AssemblerError {
                            message: String::from_str("org signal received incorrect arg"),
                        },
                    );
                },
            };
            Ok(SignalOutcome::SetPc(new_pos))
        } else if str_eq(name, "byte") {
            if args.len() == 0 {
                return Err(
                    AssemblerError { message: String::from_str("byte signal arg count incorrect") },
                );
            }
            let n = args.len();
            let mut out: Vec<u8> = Vec::new();
            let mut i: usize = 0;
            proof {
                assert(expr_views(args@).take(0) =~= Seq::<ExprV>::empty());
                assert(byte_args_s(expr_views(args@).take(0), self@.labels, self@.counting)
                    == Some(Seq::<u8>::empty()));
                assert(out@ =~= Seq::<u8>::empty());
            }
            while i < n
                invariant
                    n == args@.len(),
                    n >= 1,
                    i <= n,
                    name@ == "byte"@,
                    !(name@ == "org"@),
                    byte_args_s(expr_views(args@).take(i as int), self@.labels, self@.counting)
                        == Some(out@),
                decreases n - i,
            {
                proof {
                    assert(expr_views(args@).take(i as int + 1).drop_last() =~= expr_views(
                        args@,
                    ).take(i as int));
                    assert(expr_views(args@).take(i as int + 1).last() == args@[i as int]@);
                }
                let v = match self.eval_expr(&args[i]) {
                    Ok(v) => v,
                    Err(er) => {
                        proof {
                            lemma_byte_args_prefix(
                                expr_views(args@),
                                (i + 1) as nat,
                                self@.labels,
                                self@.counting,
                            );
                        }
                        return Err(er);
                    },
                };
                if v < 0 || v > 255 {
                    proof {
                        lemma_byte_args_prefix(
                            expr_views(args@),
                            (i + 1) as nat,
                            self@.labels,
                            self@.counting,
                        );
                    }
                    return Err(
                        AssemblerError {
                            message: String::from_str(".byte only takes 1-byte args"),
                        },
                    );
                }
                out.push(v as u8);
                i = i + 1;
            }
            proof {
                assert(expr_views(args@).take(n as int) =~= expr_views(args@));
            }
            Ok(SignalOutcome::Emit(out))
        } else if str_eq(name, "const") {
            if args.len() != 2 {
                return Err(
                    AssemblerError {
                        message: String::from_str("const signal arg count incorrect"),
                    },
                );
            }
            let cname: String = match &args[0] {
                Expr::Str(StrExpr::Raw(s)) => s.clone(),
                _ => {
                    return Err(
                        AssemblerError {
                            message: String::from_str("const signal takes arg1 = string"),
                        },
                    );
                },
            };
            if self.has_label(cname.as_str()) {
                return Err(
                    AssemblerError {
                        message: String::from_str("Attempt to create constant w/ label"),
                    },
                );
            }
            let v = match self.eval_expr(&args[1]) {
                Ok(v) => v,
                Err(er) => {
                    return Err(er);
                },
            };
            if v < 0 || v > 255 {
                return Err(
                    AssemblerError { message: String::from_str(".const only takes 1-byte args") },
                );
            }
            Ok(SignalOutcome::DefConst(cname, v as u8))
        } else {
            Err(AssemblerError { message: String::from_str("Unsupported signal name") })
        }
    }

    /// Sets the segment cursor.
    fn set_current_pos(&mut self, p: u16)
        ensures
            final(self)@ == (AsmView { current_pos: p, ..old(self)@ }),
    {
        self.current_pos = p;
    }

    /// Records a named byte constant.
    fn push_const(&mut self, name: String, v: u8)
        ensures
            final(self)@ == (AsmView {
                consts: old(self)@.consts.push((name@, v)),
                ..old(self)@
            }),
    {
        let ghost before = self@;
        let ghost nv = name@;
        self.consts.push((name, v));
        proof {
            assert(self@.consts =~= before.consts.push((nv, v)));
            assert(self@ =~= (AsmView { consts: before.consts.push((nv, v)), ..before }));
        }
    }

    /// Applies a directive to the state and hands back its bytes.
    fn parse_signal(&mut self, name: &str, args: &Vec<Expr>) -> (r: Result<Vec<u8>, AssemblerError>)
        ensures
            match signal_s(name@, expr_views(args@), old(self)@) {
                None => r is Err,
                Some((bytes, a1)) => r matches Ok(v) && v@ == bytes && final(self)@ == a1,
            },
    {
        let oc = match self.signal_outcome(name, args) {
            Ok(oc) => oc,
            Err(er) => {
                return Err(er);
            },
        };
        match oc {
            SignalOutcome::SetPc(p) => {
                self.set_pc(p);
                self.set_current_pos(p);
                proof {
                    assert(self@ =~= (AsmView { pc: p, current_pos: p, ..old(self)@ }));
                }
                Ok(Vec::new())
            },
            SignalOutcome::Emit(v) => Ok(v),
            SignalOutcome::DefConst(s, c) => {
                self.push_const(s, c);
                Ok(Vec::new())
            },
        }
    }

    /// One pass over the program: size every statement and record labels;
    /// in the emitting pass, also gather the byte segments.
    #[verifier::rlimit(100)]
    fn walk(&mut self) -> (r: Result<Option<Vec<(u16, Vec<u8>)>>, AssemblerError>)
        ensures
            ({
                let a0 = AsmView { current_pos: old(self)@.pc, ..old(self)@ };
                match walk_s(old(self)@.program, 0, a0, Seq::<(u16, Seq<u8>)>::empty()) {
                    None => r is Err,
                    Some((a1, segs)) => r matches Ok(opt) && final(self)@ == a1 && (if old(
                        self,
                    )@.counting {
                        opt is None
                    } else {
                        opt matches Some(v) && seg_views(v@) == segs
                    }),
                }
            }),
    {
        let pc0 = self.pc;
        self.set_current_pos(pc0);
        let counting = matches!(self.mode, AssembleMode::CountBytes);
        let mut segs: Vec<(u16, Vec<u8>)> = Vec::new();
        let n = self.program.len();
        let mut idx: usize = 0;
        let ghost p = self@.program;
        let ghost a0 = AsmView { current_pos: old(self)@.pc, ..old(self)@ };
        proof {
            assert(seg_views(segs@) =~= Seq::<(u16, Seq<u8>)>::empty());
            assert(self@ =~= a0);
        }
        while idx < n
            invariant
                n == self@.program.len(),
                idx <= n,
                p == self@.program,
                p == old(self)@.program,
                self@.counting == old(self)@.counting,
                counting == self@.counting,
                a0 == (AsmView { current_pos: old(self)@.pc, ..old(self)@ }),
                walk_s(p, 0, a0, Seq::<(u16, Seq<u8>)>::empty()) == walk_s(
                    p,
                    idx as nat,
                    self@,
                    seg_views(segs@),
                ),
            decreases n - idx,
        {
            let ghost pre = self@;
            let ghost segs0 = seg_views(segs@);
            let mut bytes: Vec<u8> = Vec::new();
            let act: StepAct = match &self.program[idx] {
                Stmt::DoubleOperation { .. } => {
                    let b = match self.assemble_double_op(&self.program[idx]) {
                        Ok(b) => b,
                        Err(er) => {
                            proof {
                                assert(stmt_step_s(p[idx as int], pre) is None);
                            }
                            return Err(er);
                        },
                    };
                    bytes = b;
                    StepAct::Emit
                },
                Stmt::SingleOperation { .. } => {
                    let b = match self.assemble_single_op(&self.program[idx]) {
                        Ok(b) => b,
                        Err(er) => {
                            proof {
                                assert(stmt_step_s(p[idx as int], pre) is None);
                            }
                            return Err(er);
                        },
                    };
                    bytes = b;
                    StepAct::Emit
                },
                Stmt::ZeroOperation { opid } => {
                    let b = match self.assemble_zero_op(opid.as_str()) {
                        Ok(b) => b,
                        Err(er) => {
                            proof {
                                assert(stmt_step_s(p[idx as int], pre) is None);
                            }
                            return Err(er);
                        },
                    };
                    bytes = b;
                    StepAct::Emit
                },
                Stmt::Label(s) => StepAct::Lbl(s.clone()),
                Stmt::Signal { name, args } => {
                    proof {
                        assert(expr_views(args@) =~= p[idx as int]->Signal_args);
                    }
                    let oc = match self.signal_outcome(name.as_str(), args) {
                        Ok(oc) => oc,
                        Err(er) => {
                            proof {
                                assert(stmt_step_s(p[idx as int], pre) is None);
                            }
                            return Err(er);
                        },
                    };
                    StepAct::Sig(oc)
                },
                _ => StepAct::Emit,
            };
            match act {
                StepAct::Emit => {},
                StepAct::Lbl(name) => {
                    match self.label(name) {
                        Ok(_) => (),
                        Err(er) => {
                            proof {
                                assert(stmt_step_s(p[idx as int], pre) is None);
                            }
                            return Err(er);
                        },
                    }
                },
                StepAct::Sig(oc) => {
                    match oc {
                        SignalOutcome::SetPc(pnew) => {
                            self.set_pc(pnew);
                            self.set_current_pos(pnew);
                            proof {
                                assert(self@ =~= (AsmView {
                                    pc: pnew,
                                    current_pos: pnew,
                                    ..pre
                                }));
                            }
                        },
                        SignalOutcome::Emit(v) => {
                            bytes = v;
                        },
                        SignalOutcome::DefConst(s, c) => {
                            self.push_const(s, c);
                        },
                    }
                },
            }
            let ghost a1 = self@;
            proof {
                assert(stmt_step_s(p[idx as int], pre) == Some((bytes@, a1)));
            }
            if bytes.len() > 0 {
                let l16: u16 = (bytes.len() % 65536) as u16;
                if !counting {
                    let at = self.current_pos;
                    append_segment(&mut segs, at, bytes);
                }
                self.inc_pc(l16);
            }
            proof {
                assert(walk_s(p, idx as nat, pre, segs0) == walk_s(
                    p,
                    (idx + 1) as nat,
                    self@,
                    seg_views(segs@),
                ));
            }
            idx = idx + 1;
        }
        if counting {
            Ok(None)
        } else {
            Ok(Some(segs))
        }
    }

    /// Both passes: the sizing pass records the labels, the emitting pass
    /// resolves every reference against them and produces the segments.
    pub fn assemble(&mut self) -> (r: Result<Vec<(u16, Vec<u8>)>, AssemblerError>)
        ensures
            ({
                let pg = old(self)@.program;
                let a0 = AsmView {
                    current_pos: old(self)@.pc,
                    counting: true,
                    ..old(self)@
                };
                match walk_s(pg, 0, a0, Seq::<(u16, Seq<u8>)>::empty()) {
                    None => r is Err,
                    Some((a1, _)) => {
                        let b0 = AsmView {
                            pc: old(self)@.pc,
                            current_pos: old(self)@.pc,
                            counting: false,
                            ..a1
                        };
                        match walk_s(pg, 0, b0, Seq::<(u16, Seq<u8>)>::empty()) {
                            None => r is Err,
                            Some((a2, segs)) => r matches Ok(v) && seg_views(v@) == segs
                                && final(self)@ == a2,
                        }
                    },
                }
            }),
    {
        let ghost pg = old(self)@.program;
        let ghost a0g = AsmView { current_pos: old(self)@.pc, counting: true, ..old(self)@ };
        let orig_pc = self.pc;
        let orig_pos = self.current_pos;
        self.set_mode(true);
        proof {
            assert(self@ =~= (AsmView { counting: true, ..old(self)@ }));
        }
        let ghost pre1 = self@;
        proof {
            assert((AsmView { current_pos: pre1.pc, ..pre1 }) =~= (AsmView {
                current_pos: old(self)@.pc,
                counting: true,
                ..old(self)@
            }));
        }
        match self.walk() {
            Ok(_) => (),
            Err(er) => {
                return Err(er);
            },
        }
        let ghost a1v = self@;
        proof {
            lemma_walk_preserves(pg, 0, a0g, Seq::<(u16, Seq<u8>)>::empty());
            assert(walk_s(pg, 0, a0g, Seq::<(u16, Seq<u8>)>::empty()) is Some);
            assert(a1v == walk_s(pg, 0, a0g, Seq::<(u16, Seq<u8>)>::empty())->Some_0.0);
        }
        self.set_mode(false);
        self.set_pc(orig_pc);
        self.set_current_pos(orig_pc);
        proof {
            assert(self@ =~= (AsmView {
                pc: orig_pc,
                current_pos: orig_pc,
                counting: false,
                ..a1v
            }));
            assert((AsmView { current_pos: self@.pc, ..self@ }) =~= (AsmView {
                pc: old(self)@.pc,
                current_pos: old(self)@.pc,
                counting: false,
                ..a1v
            }));
            assert(self@.program == pg);
        }
        let ghost b0g = AsmView {
            pc: old(self)@.pc,
            current_pos: old(self)@.pc,
            counting: false,
            ..a1v
        };
        match self.walk() {
            Ok(Some(s)) => {
                proof {
                    assert(walk_s(pg, 0, b0g, Seq::<(u16, Seq<u8>)>::empty()) is Some);
                    assert(self@ == walk_s(pg, 0, b0g, Seq::<(u16, Seq<u8>)>::empty())->Some_0.0);
                    assert(seg_views(s@) == walk_s(
                        pg,
                        0,
                        b0g,
                        Seq::<(u16, Seq<u8>)>::empty(),
                    )->Some_0.1);
                }
                Ok(s)
            },
            Ok(None) => Err(
                AssemblerError { message: String::from_str("Assembling returned none") },
            ),
            Err(er) => Err(er),
        }
    }

    /// Selects the sizing pass or the emitting pass.
    fn set_mode(&mut self, counting: bool)
        ensures
            final(self)@ == (AsmView { counting, ..old(self)@ }),
    {
        self.mode = if counting {
            AssembleMode::CountBytes
        } else {
            AssembleMode::Assemble
        };
    }
}

} // verus!
