//! The parser: tokens turned into a statement list by recursive descent.

use vstd::prelude::*;
use vstd::string::StringExecFns;
use crate::lexer::{Lexer, Token, TokenV, token_at, is_digit, dec_val, ident_end, digits_end, string_end, line_end};

verus! {

/// Relies on `str`'s `PartialEq`: two string slices are equal exactly when
/// they are the same sequence of characters.
#[verifier::external_body]
pub(crate) fn str_eq(a: &str, b: &str) -> (r: bool)
    ensures
        r == (a@ == b@),
{
    a == b
}

/// The addressing form of a two-operand instruction.
#[derive(Debug, Clone, Copy, PartialEq, Eq, Structural)]
pub enum DoubleMode {
    Rm,
    Ri,
    Mr,
    Rr,
    Rmi,
    Mir,
}

/// The addressing form of a one-operand instruction.
#[derive(Debug, Clone, Copy, PartialEq, Eq, Structural)]
pub enum SingleMode {
    R,
    I,
    M,
    Mi,
}

/// A string argument of a directive.
#[derive(Debug, PartialEq)]
pub enum StrExpr {
    Raw(String),
}

/// A unary operator of the expression grammar (reserved).
#[derive(Debug, PartialEq, Eq, Structural, Clone, Copy)]
pub enum UnaryOp {
    Plus,
    Minus,
    BitNot,
}

/// A binary operator of a numeric expression.
#[derive(Debug, PartialEq, Eq, Structural, Clone, Copy)]
pub enum BinaryOp {
    Add,
    Sub,
    Div,
    Mul,
}

/// An address-byte extractor applied to a numeric expression.
#[derive(Debug, PartialEq)]
pub enum Function {
    Hi(NumExpr),
    Lo(NumExpr),
}

/// A numeric expression: a literal, a reference to a label or constant, an
/// extractor application, or a parenthesised binary operation.
#[derive(Debug, PartialEq)]
pub enum NumExpr {
    Raw(i64),
    Reference(String),
    Function(Box<Function>),
    BinaryOperation { a: Box<NumExpr>, operand: BinaryOp, b: Box<NumExpr> },
}

/// An instruction operand: a register or an immediate expression.
#[derive(Debug, PartialEq)]
pub enum Operand {
    Register(u8),
    Immediate(Expr),
}

/// An argument expression.
#[derive(Debug, PartialEq)]
pub enum Expr {
    Str(StrExpr),
    Num(NumExpr),
    Operand(Box<Expr>),
    UnaryExpr { operation: UnaryOp, operatee: Box<Expr> },
}

/// How many operands a mnemonic takes.
#[derive(Debug, PartialEq, Eq, Structural, Clone, Copy)]
pub enum OpKind {
    Double,
    Single,
    Zero,
}

/// The width of a mnemonic's immediate operand.
#[derive(Debug, PartialEq, Eq, Structural, Clone, Copy)]
pub enum OperandLength {
    Unsigned16,
    Unsigned8,
    Any,
    Zero,
}

/// A statement of the program.
#[derive(Debug, PartialEq)]
pub enum Stmt {
    DoubleOperation {
        opid: String,
        mode: DoubleMode,
        dest: Operand,
        src: Operand,
        operand_length: OperandLength,
    },
    SingleOperation { opid: String, mode: SingleMode, operand: Operand, operand_length: OperandLength },
    ZeroOperation { opid: String },
    Signal { name: String, args: Vec<Expr> },
    Label(String),
    Newline,
    Comment(String),
    End,
}

// ---------------------------------------------------------------------------
// Ghost mirrors of the syntax tree, with names as character sequences.
// ---------------------------------------------------------------------------
#[verifier::ext_equal]
pub ghost enum StrExprV {
    Raw(Seq<char>),
}

#[verifier::ext_equal]
pub ghost enum FunctionV {
    Hi(Box<NumExprV>),
    Lo(Box<NumExprV>),
}

#[verifier::ext_equal]
pub ghost enum NumExprV {
    Raw(i64),
    Reference(Seq<char>),
    Function(Box<FunctionV>),
    BinaryOperation { a: Box<NumExprV>, operand: BinaryOp, b: Box<NumExprV> },
}

#[verifier::ext_equal]
pub ghost enum OperandV {
    Register(u8),
    Immediate(ExprV),
}

#[verifier::ext_equal]
pub ghost enum ExprV {
    Str(StrExprV),
    Num(NumExprV),
    Operand(Box<ExprV>),
    UnaryExpr { operation: UnaryOp, operatee: Box<ExprV> },
}

#[verifier::ext_equal]
pub ghost enum StmtV {
    DoubleOperation {
        opid: Seq<char>,
        mode: DoubleMode,
        dest: OperandV,
        src: OperandV,
        operand_length: OperandLength,
    },
    SingleOperation {
        opid: Seq<char>,
        mode: SingleMode,
        operand: OperandV,
        operand_length: OperandLength,
    },
    ZeroOperation { opid: Seq<char> },
    Signal { name: Seq<char>, args: Seq<ExprV> },
    Label(Seq<char>),
    Newline,
    Comment(Seq<char>),
    End,
}

pub open spec fn numexpr_view(e: NumExpr) -> NumExprV
    decreases e,
{
    match e {
        NumExpr::Raw(i) => NumExprV::Raw(i),
        NumExpr::Reference(s) => NumExprV::Reference(s@),
        NumExpr::Function(f) => NumExprV::Function(
            Box::new(
                match *f {
                    Function::Hi(inner) => FunctionV::Hi(Box::new(numexpr_view(inner))),
                    Function::Lo(inner) => FunctionV::Lo(Box::new(numexpr_view(inner))),
                },
            ),
        ),
        NumExpr::BinaryOperation { a, operand, b } => NumExprV::BinaryOperation {
            a: Box::new(numexpr_view(*a)),
            operand,
            b: Box::new(numexpr_view(*b)),
        },
    }
}

/// The value of an extractor call.
pub open spec fn function_view(f: Function) -> FunctionV {
    match f {
        Function::Hi(n) => FunctionV::Hi(Box::new(numexpr_view(n))),
        Function::Lo(n) => FunctionV::Lo(Box::new(numexpr_view(n))),
    }
}

pub open spec fn expr_view(e: Expr) -> ExprV
    decreases e,
{
    match e {
        Expr::Str(StrExpr::Raw(s)) => ExprV::Str(StrExprV::Raw(s@)),
        Expr::Num(n) => ExprV::Num(numexpr_view(n)),
        Expr::Operand(inner) => ExprV::Operand(Box::new(expr_view(*inner))),
        Expr::UnaryExpr { operation, operatee } => ExprV::UnaryExpr {
            operation,
            operatee: Box::new(expr_view(*operatee)),
        },
    }
}

impl View for NumExpr {
    type V = NumExprV;

    open spec fn view(&self) -> NumExprV {
        numexpr_view(*self)
    }
}

impl View for Expr {
    type V = ExprV;

    open spec fn view(&self) -> ExprV {
        expr_view(*self)
    }
}

impl View for Operand {
    type V = OperandV;

    open spec fn view(&self) -> OperandV {
        match self {
            Operand::Register(r) => OperandV::Register(*r),
            Operand::Immediate(e) => OperandV::Immediate(expr_view(*e)),
        }
    }
}

impl View for Stmt {
    type V = StmtV;

    open spec fn view(&self) -> StmtV {
        match self {
            Stmt::DoubleOperation { opid, mode, dest, src, operand_length } => {
                StmtV::DoubleOperation {
                    opid: opid@,
                    mode: *mode,
                    dest: dest@,
                    src: src@,
                    operand_length: *operand_length,
                }
            },
            Stmt::SingleOperation { opid, mode, operand, operand_length } => {
                StmtV::SingleOperation {
                    opid: opid@,
                    mode: *mode,
                    operand: operand@,
                    operand_length: *operand_length,
                }
            },
            Stmt::ZeroOperation { opid } => StmtV::ZeroOperation { opid: opid@ },
            Stmt::Signal { name, args } => StmtV::Signal {
                name: name@,
                args: Seq::new(args@.len(), |i: int| expr_view(args@[i])),
            },
            Stmt::Label(s) => StmtV::Label(s@),
            Stmt::Newline => StmtV::Newline,
            Stmt::Comment(s) => StmtV::Comment(s@),
            Stmt::End => StmtV::End,
        }
    }
}

/// An error that aborts the build, with a diagnostic for the host.
#[derive(Debug, PartialEq)]
pub struct ParserError {
    pub message: String,
}

// ---------------------------------------------------------------------------
// The mnemonic tables.
// ---------------------------------------------------------------------------
/// The arity and immediate width of each mnemonic.
pub open spec fn op_info(name: Seq<char>) -> Option<(OpKind, OperandLength)> {
    if name == "nop"@ || name == "ret"@ || name == "hlt"@ || name == "kret"@ || name == "sys"@
        || name == "pnk"@ {
        Some((OpKind::Zero, OperandLength::Zero))
    } else if name == "jmp"@ || name == "jz"@ || name == "jc"@ || name == "jo"@ || name == "js"@
        || name == "jnz"@ || name == "jg"@ || name == "jl"@ || name == "gsp"@ || name == "call"@
        || name == "ssp"@ {
        Some((OpKind::Single, OperandLength::Unsigned16))
    } else if name == "push"@ || name == "pop"@ || name == "dbg"@ || name == "shl"@ || name
        == "sar"@ || name == "skip"@ || name == "not"@ {
        Some((OpKind::Single, OperandLength::Unsigned8))
    } else if name == "mov"@ || name == "shr"@ || name == "shrw"@ || name == "add"@ || name
        == "sub"@ || name == "mul"@ || name == "div"@ || name == "mod"@ || name == "and"@ || name
        == "or"@ || name == "xor"@ || name == "cmp"@ {
        Some((OpKind::Double, OperandLength::Unsigned8))
    } else {
        None
    }
}

/// The two-operand mode names.
pub open spec fn double_mode_of(name: Seq<char>) -> Option<DoubleMode> {
    if name == "rm"@ {
        Some(DoubleMode::Rm)
    } else if name == "rr"@ {
        Some(DoubleMode::Rr)
    } else if name == "ri"@ {
        Some(DoubleMode::Ri)
    } else if name == "mr"@ {
        Some(DoubleMode::Mr)
    } else {
        None
    }
}

/// The one-operand mode names.
pub open spec fn single_mode_of(name: Seq<char>) -> Option<SingleMode> {
    if name == "r"@ {
        Some(SingleMode::R)
    } else if name == "m"@ {
        Some(SingleMode::M)
    } else if name == "i"@ {
        Some(SingleMode::I)
    } else {
        None
    }
}

/// A register name: `r` followed by a decimal number below 256.
pub open spec fn register_of(name: Seq<char>) -> Option<u8> {
    if name.len() >= 2 && name[0] == 'r' && (forall|j: int|
        1 <= j < name.len() ==> is_digit(#[trigger] name[j])) && dec_val(name.skip(1)) <= 255 {
        Some(dec_val(name.skip(1)) as u8)
    } else {
        None
    }
}

// ---------------------------------------------------------------------------
// The token stream of a whole text.
// ---------------------------------------------------------------------------
/// Bounds of the identifier scan.
proof fn lemma_ident_end_bounds(src: Seq<char>, pos: nat)
    ensures
        ident_end(src, pos) >= pos,
        pos <= src.len() ==> ident_end(src, pos) <= src.len(),
    decreases src.len() - pos,
{
    if pos < src.len() && crate::lexer::is_ident_char(src[pos as int]) {
        lemma_ident_end_bounds(src, pos + 1);
    }
}

/// Bounds of the digit scan.
proof fn lemma_digits_end_bounds(src: Seq<char>, pos: nat)
    ensures
        digits_end(src, pos) >= pos,
        pos <= src.len() ==> digits_end(src, pos) <= src.len(),
    decreases src.len() - pos,
{
    if pos < src.len() && is_digit(src[pos as int]) {
        lemma_digits_end_bounds(src, pos + 1);
    }
}

/// Bounds of the scan for a closing quote.
proof fn lemma_string_end_bounds(src: Seq<char>, pos: nat)
    ensures
        string_end(src, pos) matches Some(e) ==> pos <= e < src.len(),
    decreases src.len() - pos,
{
    if pos < src.len() && src[pos as int] != '"' {
        lemma_string_end_bounds(src, pos + 1);
    }
}

/// Bounds of the scan for an end of line.
proof fn lemma_line_end_bounds(src: Seq<char>, pos: nat)
    ensures
        line_end(src, pos) matches Some(e) ==> pos <= e < src.len(),
    decreases src.len() - pos,
{
    if pos < src.len() && src[pos as int] != '\n' && src[pos as int] != '\r' {
        lemma_line_end_bounds(src, pos + 1);
    }
}

/// Every token but `EOF` covers at least one character, and no token runs
/// past the end of the text.
proof fn lemma_token_at_advances(src: Seq<char>, pos: nat)
    requires
        pos <= src.len(),
    ensures
        token_at(src, pos) matches Some(t_np) ==> {
            &&& t_np.1 <= src.len()
            &&& t_np.1 >= pos
            &&& !(t_np.0 is EOF) ==> t_np.1 > pos
        },
    decreases src.len() - pos,
{
    if pos < src.len() {
        let c = src[pos as int];
        lemma_ident_end_bounds(src, pos);
        lemma_ident_end_bounds(src, pos + 1);
        lemma_ident_end_bounds(src, pos + 2);
        lemma_ident_end_bounds(src, pos + 3);
        lemma_digits_end_bounds(src, pos);
        lemma_digits_end_bounds(src, pos + 1);
        lemma_string_end_bounds(src, pos + 1);
        lemma_line_end_bounds(src, pos + 1);
        if crate::lexer::is_skip_ws(c) {
            lemma_token_at_advances(src, pos + 1);
        }
    }
}

/// The token sequence of the text from `pos`: every token through the
/// final `EOF`, or `None` on a lexer error.
pub open spec fn tokens_from(src: Seq<char>, pos: nat) -> Option<Seq<TokenV>>
    decreases src.len() - pos,
    via tokens_from_decreases
{
    match token_at(src, pos) {
        None => None,
        Some((t, np)) => {
            if t is EOF {
                Some(seq![t])
            } else {
                match tokens_from(src, np) {
                    None => None,
                    Some(rest) => Some(seq![t] + rest),
                }
            }
        },
    }
}

#[via_fn]
proof fn tokens_from_decreases(src: Seq<char>, pos: nat) {
    if pos <= src.len() {
        lemma_token_at_advances(src, pos);
    }
}

/// The values of a vector of tokens.
pub open spec fn token_views(tokens: Seq<Token>) -> Seq<TokenV> {
    Seq::new(tokens.len(), |i: int| tokens[i]@)
}


// ---------------------------------------------------------------------------
// Numeric literals of the parser: hexadecimal and binary strings.
// ---------------------------------------------------------------------------
/// Whether a character is a digit of the given radix (2 or 16; letters are
/// already lower-cased by the lexer).
pub open spec fn radix_digit_ok(c: char, radix: int) -> bool {
    (is_digit(c) && c as int - 48 < radix) || (radix == 16 && 'a' <= c && c <= 'f')
}

/// The value of a radix digit.
pub open spec fn radix_digit_val(c: char) -> int {
    if is_digit(c) {
        c as int - 48
    } else {
        c as int - 87
    }
}

/// The value of a digit string in the given radix; `None` when it is empty
/// or holds a foreign character.
pub open spec fn radix_val(s: Seq<char>, radix: int) -> Option<int>
    decreases s.len(),
{
    if s.len() == 0 {
        None
    } else if s.len() == 1 {
        if radix_digit_ok(s[0], radix) {
            Some(radix_digit_val(s[0]))
        } else {
            None
        }
    } else {
        match radix_val(s.drop_last(), radix) {
            None => None,
            Some(v) => {
                if radix_digit_ok(s.last(), radix) {
                    Some(v * radix + radix_digit_val(s.last()))
                } else {
                    None
                }
            },
        }
    }
}

/// A digit string's value is non-negative.
proof fn lemma_radix_val_nonneg(s: Seq<char>, radix: int)
    requires
        radix >= 2,
    ensures
        radix_val(s, radix) matches Some(v) ==> v >= 0,
    decreases s.len(),
{
    if s.len() > 1 {
        lemma_radix_val_nonneg(s.drop_last(), radix);
        let p0 = radix_val(s.drop_last(), radix);
        if p0 is Some {
            let v0 = p0->Some_0;
            assert(v0 >= 0 ==> v0 * radix >= 0) by (nonlinear_arith)
                requires
                    radix >= 2,
            ;
        }
    }
}

/// A digit string's value is at least the value of any non-empty prefix,
/// and a bad prefix spoils the whole string.
proof fn lemma_radix_prefix(s: Seq<char>, k: nat, radix: int)
    requires
        1 <= k <= s.len(),
        radix >= 2,
    ensures
        radix_val(s.take(k as int), radix) is None ==> radix_val(s, radix) is None,
        radix_val(s, radix) matches Some(w) ==> (radix_val(s.take(k as int), radix) matches Some(v)
            && 0 <= v <= w),
    decreases s.len() - k,
{
    if k == s.len() {
        assert(s.take(k as int) =~= s);
        lemma_radix_val_nonneg(s, radix);
    } else {
        lemma_radix_prefix(s, k + 1, radix);
        assert(s.take(k as int + 1).drop_last() =~= s.take(k as int));
        assert(s.take(k as int + 1).last() == s[k as int]);
        assert(s.take(k as int + 1).len() == k + 1);
        let pk = radix_val(s.take(k as int), radix);
        let pk1 = radix_val(s.take(k as int + 1), radix);
        lemma_radix_val_nonneg(s.take(k as int), radix);
        assert(pk is None ==> pk1 is None);
        if pk is Some {
            let v = pk->Some_0;
            assert(v >= 0);
            assert(v <= v * radix) by (nonlinear_arith)
                requires
                    radix >= 2 && v >= 0,
            ;
            if radix_digit_ok(s[k as int], radix) {
                assert(radix_digit_val(s[k as int]) >= 0);
                assert(pk1 == Some(v * radix + radix_digit_val(s[k as int])));
                assert(pk1->Some_0 >= v);
            } else {
                assert(pk1 is None);
            }
        }
    }
}

/// Parses a lower-cased digit string in the given radix into a non-negative
/// 64-bit value.
fn parse_radix(s: &str, radix: u8) -> (r: Result<i64, ParserError>)
    requires
        radix == 2 || radix == 16,
    ensures
        match r {
            Ok(v) => radix_val(s@, radix as int) == Some(v as int),
            Err(_) => !(radix_val(s@, radix as int) matches Some(v) && v <= i64::MAX),
        },
{
    let n = s.unicode_len();
    if n == 0 {
        return Err(ParserError { message: String::from_str("empty numeric literal") });
    }
    let mut acc: i64 = 0;
    let mut i: usize = 0;
    while i < n
        invariant
            radix == 2 || radix == 16,
            n == s@.len(),
            1 <= n,
            i <= n,
            0 <= acc <= i64::MAX,
            i > 0 ==> radix_val(s@.take(i as int), radix as int) == Some(acc as int),
            i == 0 ==> acc == 0,
        decreases n - i,
    {
        let c = s.get_char(i);
        let d: i64 = if c >= '0' && c <= '9' && ((c as u8) - 48) < radix {
            (((c as u8) - 48)) as i64
        } else if radix == 16 && c >= 'a' && c <= 'f' {
            (((c as u8) - 87)) as i64
        } else {
            proof {
                assert(!radix_digit_ok(s@[i as int], radix as int));
                assert(s@.take(i as int + 1).len() >= 1);
                if i > 0 {
                    assert(s@.take(i as int + 1).drop_last() =~= s@.take(i as int));
                }
                assert(s@.take(i as int + 1).last() == s@[i as int]);
                assert(radix_val(s@.take(i as int + 1), radix as int) is None);
                lemma_radix_prefix(s@, (i + 1) as nat, radix as int);
            }
            return Err(ParserError { message: String::from_str("bad digit in numeric literal") });
        };
        proof {
            assert(radix_digit_ok(s@[i as int], radix as int));
            assert(d == radix_digit_val(s@[i as int]));
            assert(s@.take(i as int + 1).last() == s@[i as int]);
            if i > 0 {
                assert(s@.take(i as int + 1).drop_last() =~= s@.take(i as int));
            } else {
                assert(s@.take(1).len() == 1);
            }
        }
        if i > 0 && acc > (i64::MAX - d) / (radix as i64) {
            proof {
                assert(acc * (radix as int) + d > i64::MAX) by (nonlinear_arith)
                    requires
                        acc > (i64::MAX - d) / (radix as int) && 0 <= d < 16 && acc >= 0 && (radix
                            == 2 || radix == 16),
                ;
                lemma_radix_prefix(s@, (i + 1) as nat, radix as int);
            }
            return Err(
                ParserError { message: String::from_str("numeric literal out of range") },
            );
        }
        proof {
            if i > 0 {
                assert(acc * (radix as int) + d <= i64::MAX) by (nonlinear_arith)
                    requires
                        acc <= (i64::MAX - d) / (radix as int) && 0 <= d < 16 && acc >= 0 && (radix
                            == 2 || radix == 16),
                ;
                assert(acc * (radix as int) >= 0) by (nonlinear_arith)
                    requires
                        acc >= 0 && radix >= 2,
                ;
            }
        }
        if i > 0 {
            acc = acc * (radix as i64) + d;
        } else {
            acc = d;
        }
        i = i + 1;
    }
    proof {
        assert(s@.take(n as int) =~= s@);
    }
    Ok(acc)
}

/// A fresh token with the same value.
fn clone_token(t: &Token) -> (r: Token)
    ensures
        r@ == t@,
{
    match t {
        Token::Ident(s) => Token::Ident(s.clone()),
        Token::Int(i) => Token::Int(*i),
        Token::Hex(s) => Token::Hex(s.clone()),
        Token::Binary(s) => Token::Binary(s.clone()),
        Token::Str(s) => Token::Str(s.clone()),
        Token::Char(c) => Token::Char(*c),
        Token::Comment(s) => Token::Comment(s.clone()),
        Token::PLUS => Token::PLUS,
        Token::MINUS => Token::MINUS,
        Token::COLON => Token::COLON,
        Token::ASTERISK => Token::ASTERISK,
        Token::FSLASH => Token::FSLASH,
        Token::UNDERSCORE => Token::UNDERSCORE,
        Token::LPAREN => Token::LPAREN,
        Token::EXCLAMATION => Token::EXCLAMATION,
        Token::RPAREN => Token::RPAREN,
        Token::LESSTHAN => Token::LESSTHAN,
        Token::GREATERTHAN => Token::GREATERTHAN,
        Token::LESSTHANEQ => Token::LESSTHANEQ,
        Token::GREATERTHANEQ => Token::GREATERTHANEQ,
        Token::LSQBRACK => Token::LSQBRACK,
        Token::RSQBRACK => Token::RSQBRACK,
        Token::COMMA => Token::COMMA,
        Token::EQUALS => Token::EQUALS,
        Token::LCURL => Token::LCURL,
        Token::RCURL => Token::RCURL,
        Token::EOF => Token::EOF,
        Token::PERIOD => Token::PERIOD,
        Token::NEWLINE => Token::NEWLINE,
        Token::TAB => Token::TAB,
    }
}

/// Equality of tokens that carry no text: the only ones `basic_token`
/// expects.
pub open spec fn unit_token_eq(a: TokenV, b: TokenV) -> bool {
    a == b && !(a is Ident || a is Int || a is Hex || a is Binary || a is Str || a is Char
        || a is Comment)
}

/// Whether two tokens are the same punctuation, newline or end marker.
fn token_matches(a: &Token, b: &Token) -> (r: bool)
    ensures
        r == unit_token_eq(a@, b@),
{
    match (a, b) {
        (Token::PLUS, Token::PLUS) => true,
        (Token::MINUS, Token::MINUS) => true,
        (Token::COLON, Token::COLON) => true,
        (Token::ASTERISK, Token::ASTERISK) => true,
        (Token::FSLASH, Token::FSLASH) => true,
        (Token::UNDERSCORE, Token::UNDERSCORE) => true,
        (Token::LPAREN, Token::LPAREN) => true,
        (Token::EXCLAMATION, Token::EXCLAMATION) => true,
        (Token::RPAREN, Token::RPAREN) => true,
        (Token::LESSTHAN, Token::LESSTHAN) => true,
        (Token::GREATERTHAN, Token::GREATERTHAN) => true,
        (Token::LESSTHANEQ, Token::LESSTHANEQ) => true,
        (Token::GREATERTHANEQ, Token::GREATERTHANEQ) => true,
        (Token::LSQBRACK, Token::LSQBRACK) => true,
        (Token::RSQBRACK, Token::RSQBRACK) => true,
        (Token::COMMA, Token::COMMA) => true,
        (Token::EQUALS, Token::EQUALS) => true,
        (Token::LCURL, Token::LCURL) => true,
        (Token::RCURL, Token::RCURL) => true,
        (Token::EOF, Token::EOF) => true,
        (Token::PERIOD, Token::PERIOD) => true,
        (Token::NEWLINE, Token::NEWLINE) => true,
        (Token::TAB, Token::TAB) => true,
        _ => false,
    }
}

/// The arity and width table as executable code.
fn op_info_of(name: &str) -> (r: Option<(OpKind, OperandLength)>)
    ensures
        r == op_info(name@),
{
    if str_eq(name, "nop") || str_eq(name, "ret") || str_eq(name, "hlt") || str_eq(name, "kret")
        || str_eq(name, "sys") || str_eq(name, "pnk") {
        Some((OpKind::Zero, OperandLength::Zero))
    } else if str_eq(name, "jmp") || str_eq(name, "jz") || str_eq(name, "jc") || str_eq(name, "jo")
        || str_eq(name, "js") || str_eq(name, "jnz") || str_eq(name, "jg") || str_eq(name, "jl")
        || str_eq(name, "gsp") || str_eq(name, "call") || str_eq(name, "ssp") {
        Some((OpKind::Single, OperandLength::Unsigned16))
    } else if str_eq(name, "push") || str_eq(name, "pop") || str_eq(name, "dbg") || str_eq(
        name,
        "shl",
    ) || str_eq(name, "sar") || str_eq(name, "skip") || str_eq(name, "not") {
        Some((OpKind::Single, OperandLength::Unsigned8))
    } else if str_eq(name, "mov") || str_eq(name, "shr") || str_eq(name, "shrw") || str_eq(
        name,
        "add",
    ) || str_eq(name, "sub") || str_eq(name, "mul") || str_eq(name, "div") || str_eq(name, "mod")
        || str_eq(name, "and") || str_eq(name, "or") || str_eq(name, "xor") || str_eq(
        name,
        "cmp",
    ) {
        Some((OpKind::Double, OperandLength::Unsigned8))
    } else {
        None
    }
}

/// The two-operand mode table as executable code.
fn double_mode_lookup(name: &str) -> (r: Option<DoubleMode>)
    ensures
        r == double_mode_of(name@),
{
    if str_eq(name, "rm") {
        Some(DoubleMode::Rm)
    } else if str_eq(name, "rr") {
        Some(DoubleMode::Rr)
    } else if str_eq(name, "ri") {
        Some(DoubleMode::Ri)
    } else if str_eq(name, "mr") {
        Some(DoubleMode::Mr)
    } else {
        None
    }
}

/// The one-operand mode table as executable code.
fn single_mode_lookup(name: &str) -> (r: Option<SingleMode>)
    ensures
        r == single_mode_of(name@),
{
    if str_eq(name, "r") {
        Some(SingleMode::R)
    } else if str_eq(name, "m") {
        Some(SingleMode::M)
    } else if str_eq(name, "i") {
        Some(SingleMode::I)
    } else {
        None
    }
}

/// The abstract state of a parser: the token stream and the cursor.
#[verifier::ext_equal]
pub ghost struct ParserView {
    pub tokens: Seq<TokenV>,
    pub pos: nat,
    pub lex_failed: bool,
}

/// The parser. The whole text is tokenized up front; parsing walks the
/// token list with one token of lookahead.
#[derive(Debug)]
pub struct Parser {
    tokens: Vec<Token>,
    pos: usize,
    lex_failed: bool,
}

impl View for Parser {
    type V = ParserView;

    closed spec fn view(&self) -> ParserView {
        ParserView {
            tokens: token_views(self.tokens@),
            pos: self.pos as nat,
            lex_failed: self.lex_failed,
        }
    }
}

/// The token under the cursor; past the end it is `EOF`.
pub open spec fn tok(ts: Seq<TokenV>, i: nat) -> TokenV {
    if i < ts.len() {
        ts[i as int]
    } else {
        TokenV::EOF
    }
}

/// The cursor after consuming one token; it stays on the final `EOF`.
pub open spec fn adv_i(ts: Seq<TokenV>, i: nat) -> nat {
    if i + 1 < ts.len() {
        i + 1
    } else {
        i
    }
}

/// The late reclassification of a two-operand mode: an immediate where a
/// register pair was expected promotes `Rm` to `Rmi` and `Mr` to `Mir`.
pub open spec fn promote_double(m: DoubleMode, dest_is_reg: bool, src_is_reg: bool) -> DoubleMode {
    let m1 = if !src_is_reg && m == DoubleMode::Rm {
        DoubleMode::Rmi
    } else {
        m
    };
    if !dest_is_reg && m1 == DoubleMode::Mr {
        DoubleMode::Mir
    } else {
        m1
    }
}

/// The late reclassification of a one-operand mode: an immediate where a
/// register pair was expected promotes `M` to `Mi`.
pub open spec fn promote_single(m: SingleMode, op_is_reg: bool) -> SingleMode {
    if !op_is_reg && m == SingleMode::M {
        SingleMode::Mi
    } else {
        m
    }
}


// ---------------------------------------------------------------------------
// The statement production: what each parsing routine yields from the
// token stream. `None` is a parser error.
// ---------------------------------------------------------------------------
/// A token stream as the tokenizer produces it: non-empty and closed by
/// its `EOF` marker, so that every real token has a position after it.
pub open spec fn eof_terminated(ts: Seq<TokenV>) -> bool {
    ts.len() >= 1 && ts.last() is EOF
}

/// A numeric expression starting at `i`: a reference, a literal, or a
/// parenthesised binary operation. The fuel bounds the nesting; any fuel
/// of at least the stream length remaining gives the same answer
/// (`lemma_numexpr_fuel`).
pub open spec fn p_numexpr(ts: Seq<TokenV>, i: nat, fuel: nat) -> Option<(NumExprV, nat)>
    decreases fuel,
{
    if fuel == 0 {
        None
    } else {
        match tok(ts, i) {
            TokenV::Ident(n) => Some((NumExprV::Reference(n), adv_i(ts, i))),
            TokenV::Int(v) => Some((NumExprV::Raw(v), adv_i(ts, i))),
            TokenV::Hex(h) => {
                let rv = radix_val(h, 16);
                if rv is Some && rv->Some_0 <= i64::MAX {
                    Some((NumExprV::Raw(rv->Some_0 as i64), adv_i(ts, i)))
                } else {
                    None
                }
            },
            TokenV::Binary(h) => {
                let rv = radix_val(h, 2);
                if rv is Some && rv->Some_0 <= i64::MAX {
                    Some((NumExprV::Raw(rv->Some_0 as i64), adv_i(ts, i)))
                } else {
                    None
                }
            },
            TokenV::LPAREN => {
                match p_numexpr(ts, adv_i(ts, i), (fuel - 1) as nat) {
                    None => None,
                    Some((a, j)) => {
                        let opv = match tok(ts, j) {
                            TokenV::ASTERISK => Some(BinaryOp::Mul),
                            TokenV::PLUS => Some(BinaryOp::Add),
                            TokenV::MINUS => Some(BinaryOp::Sub),
                            TokenV::FSLASH => Some(BinaryOp::Div),
                            _ => None,
                        };
                        match opv {
                            None => None,
                            Some(op) => {
                                match p_numexpr(ts, adv_i(ts, j), (fuel - 1) as nat) {
                                    None => None,
                                    Some((b, m)) => {
                                        if tok(ts, m) is RPAREN {
                                            Some(
                                                (
                                                    NumExprV::BinaryOperation {
                                                        a: Box::new(a),
                                                        operand: op,
                                                        b: Box::new(b),
                                                    },
                                                    adv_i(ts, m),
                                                ),
                                            )
                                        } else {
                                            None
                                        }
                                    },
                                }
                            },
                        }
                    },
                }
            },
            _ => None,
        }
    }
}

/// The numeric expression at `i`, with fuel enough for any stream.
pub open spec fn numexpr_at(ts: Seq<TokenV>, i: nat) -> Option<(NumExprV, nat)> {
    p_numexpr(ts, i, ts.len() + 1)
}

/// Over an `EOF`-terminated stream, any fuel of at least the remaining
/// length gives the same parse, and a successful parse moves strictly
/// forward without leaving the stream.
pub proof fn lemma_numexpr_fuel(ts: Seq<TokenV>, i: nat, f1: nat, f2: nat)
    requires
        eof_terminated(ts),
        f1 > ts.len() - i,
        f2 > ts.len() - i,
    ensures
        p_numexpr(ts, i, f1) == p_numexpr(ts, i, f2),
        p_numexpr(ts, i, f1) matches Some(t) ==> i < t.1 <= ts.len(),
    decreases ts.len() - i,
{
    let t0 = tok(ts, i);
    if t0 is LPAREN {
        assert(i < ts.len() - 1);
        let i1 = adv_i(ts, i);
        assert(i1 == i + 1);
        lemma_numexpr_fuel(ts, i1, (f1 - 1) as nat, (f2 - 1) as nat);
        match p_numexpr(ts, i1, (f1 - 1) as nat) {
            None => {},
            Some((a, j)) => {
                let opv = match tok(ts, j) {
                    TokenV::ASTERISK => Some(BinaryOp::Mul),
                    TokenV::PLUS => Some(BinaryOp::Add),
                    TokenV::MINUS => Some(BinaryOp::Sub),
                    TokenV::FSLASH => Some(BinaryOp::Div),
                    _ => None,
                };
                if opv is Some {
                    assert(j < ts.len() - 1);
                    let k = adv_i(ts, j);
                    assert(k == j + 1);
                    lemma_numexpr_fuel(ts, k, (f1 - 1) as nat, (f2 - 1) as nat);
                    match p_numexpr(ts, k, (f1 - 1) as nat) {
                        None => {},
                        Some((b, m)) => {
                            if tok(ts, m) is RPAREN {
                                assert(m < ts.len() - 1);
                            }
                        },
                    }
                }
            },
        }
    } else if !(t0 is Ident || t0 is Int || t0 is Hex || t0 is Binary) {
    } else {
        assert(i < ts.len() - 1);
    }
}

/// An operand starting at `i`: a register, an extractor call, or an
/// immediate expression.
pub open spec fn p_operand(ts: Seq<TokenV>, i: nat) -> Option<(OperandV, nat)> {
    match tok(ts, i) {
        TokenV::Ident(n) => {
            if register_of(n) is Some {
                Some((OperandV::Register(register_of(n)->Some_0), adv_i(ts, i)))
            } else if tok(ts, i + 1) is LPAREN {
                if n == "hi"@ || n == "lo"@ {
                    match numexpr_at(ts, adv_i(ts, adv_i(ts, i))) {
                        None => None,
                        Some((e, j)) => {
                            if tok(ts, j) is RPAREN {
                                let f = if n == "hi"@ {
                                    FunctionV::Hi(Box::new(e))
                                } else {
                                    FunctionV::Lo(Box::new(e))
                                };
                                Some(
                                    (
                                        OperandV::Immediate(
                                            ExprV::Num(NumExprV::Function(Box::new(f))),
                                        ),
                                        adv_i(ts, j),
                                    ),
                                )
                            } else {
                                None
                            }
                        },
                    }
                } else {
                    None
                }
            } else {
                Some(
                    (OperandV::Immediate(ExprV::Num(NumExprV::Reference(n))), adv_i(ts, i)),
                )
            }
        },
        TokenV::Int(_) | TokenV::Hex(_) | TokenV::Binary(_) | TokenV::LPAREN => {
            match numexpr_at(ts, i) {
                None => None,
                Some((e, j)) => Some((OperandV::Immediate(ExprV::Num(e)), j)),
            }
        },
        _ => None,
    }
}

/// A two-operand statement from the mnemonic at `i`: the mode name, the
/// destination, a comma, the source, and the mode promotion.
pub open spec fn p_double(ts: Seq<TokenV>, i: nat, opid: Seq<char>, ol: OperandLength) -> Option<
    (StmtV, nat),
> {
    if !(tok(ts, i) is Ident) {
        None
    } else {
        match tok(ts, adv_i(ts, i)) {
            TokenV::Ident(mn) => match double_mode_of(mn) {
                None => None,
                Some(m0) => {
                    match p_operand(ts, adv_i(ts, adv_i(ts, i))) {
                        None => None,
                        Some((dest, j)) => {
                            if !unit_token_eq(tok(ts, j), TokenV::COMMA) {
                                None
                            } else {
                                match p_operand(ts, adv_i(ts, j)) {
                                    None => None,
                                    Some((src, m)) => Some(
                                        (
                                            StmtV::DoubleOperation {
                                                opid,
                                                mode: promote_double(
                                                    m0,
                                                    dest is Register,
                                                    src is Register,
                                                ),
                                                dest,
                                                src,
                                                operand_length: ol,
                                            },
                                            m,
                                        ),
                                    ),
                                }
                            }
                        },
                    }
                },
            },
            _ => None,
        }
    }
}

/// A one-operand statement from the mnemonic at `i`.
pub open spec fn p_single(ts: Seq<TokenV>, i: nat, opid: Seq<char>, ol: OperandLength) -> Option<
    (StmtV, nat),
> {
    if !(tok(ts, i) is Ident) {
        None
    } else {
        match tok(ts, adv_i(ts, i)) {
            TokenV::Ident(mn) => match single_mode_of(mn) {
                None => None,
                Some(m0) => {
                    match p_operand(ts, adv_i(ts, adv_i(ts, i))) {
                        None => None,
                        Some((operand, j)) => Some(
                            (
                                StmtV::SingleOperation {
                                    opid,
                                    mode: promote_single(m0, operand is Register),
                                    operand,
                                    operand_length: ol,
                                },
                                j,
                            ),
                        ),
                    }
                },
            },
            _ => None,
        }
    }
}

/// One directive argument as a value; anything else ends the list with an
/// error.
pub open spec fn arg_of(t: TokenV) -> Option<ExprV> {
    match t {
        TokenV::Ident(s) => Some(ExprV::Num(NumExprV::Reference(s))),
        TokenV::Int(v) => Some(ExprV::Num(NumExprV::Raw(v))),
        TokenV::Hex(h) => {
            let rv = radix_val(h, 16);
            if rv is Some && rv->Some_0 <= i64::MAX {
                Some(ExprV::Num(NumExprV::Raw(rv->Some_0 as i64)))
            } else {
                None
            }
        },
        TokenV::Binary(h) => {
            let rv = radix_val(h, 2);
            if rv is Some && rv->Some_0 <= i64::MAX {
                Some(ExprV::Num(NumExprV::Raw(rv->Some_0 as i64)))
            } else {
                None
            }
        },
        TokenV::Str(s) => Some(ExprV::Str(StrExprV::Raw(s))),
        TokenV::Char(c) => Some(ExprV::Num(NumExprV::Raw((c as u32) as i64))),
        _ => None,
    }
}

/// The comma-separated argument list starting at `i`: one argument, and
/// more after each comma.
pub open spec fn p_args(ts: Seq<TokenV>, i: nat) -> Option<(Seq<ExprV>, nat)>
    decreases ts.len() - i,
{
    match arg_of(tok(ts, i)) {
        None => None,
        Some(e) => {
            let j = adv_i(ts, i);
            if unit_token_eq(tok(ts, j), TokenV::COMMA) {
                let k = adv_i(ts, j);
                if i < j && j < k {
                    match p_args(ts, k) {
                        None => None,
                        Some((rest, np)) => Some((seq![e] + rest, np)),
                    }
                } else {
                    None
                }
            } else {
                Some((seq![e], j))
            }
        },
    }
}

/// A directive statement from past its name: no arguments when the line
/// ends at once, else the argument list.
pub open spec fn p_sig_stmt(ts: Seq<TokenV>, i: nat, name: Seq<char>) -> Option<(StmtV, nat)> {
    let t = tok(ts, i);
    if t is EOF || t is Comment || t is NEWLINE {
        Some((StmtV::Signal { name, args: Seq::empty() }, i))
    } else {
        match p_args(ts, i) {
            None => None,
            Some((args, np)) => Some((StmtV::Signal { name, args }, np)),
        }
    }
}

/// A directive: the period, its name, then its arguments.
pub open spec fn p_signal(ts: Seq<TokenV>, i: nat) -> Option<(StmtV, nat)> {
    if !unit_token_eq(tok(ts, i), TokenV::PERIOD) {
        None
    } else {
        match tok(ts, adv_i(ts, i)) {
            TokenV::Ident(nm) => p_sig_stmt(ts, adv_i(ts, adv_i(ts, i)), nm),
            _ => None,
        }
    }
}

/// One statement at `i`, and where the next begins.
pub open spec fn stmt_at(ts: Seq<TokenV>, i: nat) -> Option<(StmtV, nat)> {
    match tok(ts, i) {
        TokenV::EOF => Some((StmtV::End, i)),
        TokenV::Comment(c) => Some((StmtV::Comment(c), adv_i(ts, i))),
        TokenV::NEWLINE => Some((StmtV::Newline, adv_i(ts, i))),
        TokenV::Ident(n) => {
            match op_info(n) {
                Some((kind, l)) => {
                    if kind == OpKind::Zero {
                        Some((StmtV::ZeroOperation { opid: n }, adv_i(ts, i)))
                    } else if kind == OpKind::Double {
                        p_double(ts, i, n, l)
                    } else {
                        p_single(ts, i, n, l)
                    }
                },
                None => {
                    if tok(ts, i + 1) is COLON {
                        Some((StmtV::Label(n), adv_i(ts, adv_i(ts, i))))
                    } else {
                        None
                    }
                },
            }
        },
        TokenV::PERIOD => p_signal(ts, i),
        _ => None,
    }
}

/// The whole statement list from `i`: statements in input order up to and
/// excluding the end marker.
pub open spec fn stmts_from(ts: Seq<TokenV>, i: nat) -> Option<Seq<StmtV>>
    decreases ts.len() - i,
{
    match stmt_at(ts, i) {
        None => None,
        Some((st, np)) => {
            if st is End {
                Some(Seq::empty())
            } else if i < np && np <= ts.len() {
                match stmts_from(ts, np) {
                    None => None,
                    Some(rest) => Some(seq![st] + rest),
                }
            } else {
                None
            }
        },
    }
}

/// The values of a statement list.
pub open spec fn stmt_views(stmts: Seq<Stmt>) -> Seq<StmtV> {
    Seq::new(stmts.len(), |i: int| stmts[i]@)
}

impl Parser {
    /// A parser is sound while its token list ends in `EOF` and the cursor
    /// lies inside it.
    pub open spec fn wf(&self) -> bool {
        !self@.lex_failed ==> {
            &&& self@.tokens.len() >= 1
            &&& self@.tokens.last() is EOF
            &&& self@.pos < self@.tokens.len()
        }
    }

    /// Tokenizes the whole text. A lexer error is remembered and surfaces
    /// when `parse` is called.
    pub fn new(passed_lex: Lexer) -> (p: Parser)
        requires
            passed_lex@.pos <= passed_lex@.src.len(),
        ensures
            p.wf(),
            match tokens_from(passed_lex@.src, passed_lex@.pos) {
                Some(ts) => !p@.lex_failed && p@.tokens == ts && p@.pos == 0,
                None => p@.lex_failed,
            },
    {
        let ghost src = passed_lex@.src;
        let ghost pos0 = passed_lex@.pos;
        let mut lex = passed_lex;
        let mut tokens: Vec<Token> = Vec::new();
        let mut lex_failed = false;
        let mut done = false;
        proof {
            assert(token_views(tokens@) =~= Seq::<TokenV>::empty());
        }
        while !done && !lex_failed
            invariant
                lex@.src == src,
                lex@.pos <= src.len(),
                !done && !lex_failed ==> match tokens_from(src, lex@.pos) {
                    Some(rest) => tokens_from(src, pos0) == Some(token_views(tokens@) + rest),
                    None => tokens_from(src, pos0) is None,
                },
                done && !lex_failed ==> tokens_from(src, pos0) == Some(token_views(tokens@))
                    && tokens@.len() >= 1 && token_views(tokens@).last() is EOF,
                lex_failed ==> tokens_from(src, pos0) is None,
            decreases (if done || lex_failed {
                0int
            } else {
                src.len() - lex@.pos + 1
            }),
        {
            let ghost cur = lex@.pos;
            proof {
                lemma_token_at_advances(src, cur);
            }
            match lex.next_token() {
                Err(_) => {
                    lex_failed = true;
                },
                Ok(t) => {
                    let is_eof = matches!(t, Token::EOF);
                    let ghost tv = t@;
                    let ghost before = token_views(tokens@);
                    tokens.push(t);
                    proof {
                        assert(token_views(tokens@) =~= before.push(tv));
                    }
                    if is_eof {
                        done = true;
                        proof {
                            assert(tokens_from(src, cur) == Some(seq![tv]));
                            assert(before + seq![tv] =~= token_views(tokens@));
                        }
                    } else {
                        proof {
                            let rest0 = tokens_from(src, cur);
                            if rest0 is Some {
                                let rest1 = tokens_from(src, lex@.pos);
                                assert(rest1 is Some);
                                assert(rest0 == Some(seq![tv] + rest1->Some_0));
                                assert((before + (seq![tv] + rest1->Some_0)) =~= (token_views(
                                    tokens@,
                                ) + rest1->Some_0));
                            }
                        }
                    }
                },
            }
        }
        let p = Parser { tokens, pos: 0, lex_failed };
        p
    }

    /// The token under the cursor.
    fn current(&self) -> (t: &Token)
        requires
            self@.pos < self@.tokens.len(),
        ensures
            t@ == tok(self@.tokens, self@.pos),
    {
        &self.tokens[self.pos]
    }

    /// Consumes one token; the cursor stays on the final `EOF`.
    fn advance(&mut self)
        requires
            old(self).wf(),
            !old(self)@.lex_failed,
        ensures
            final(self).wf(),
            final(self)@.tokens == old(self)@.tokens,
            final(self)@.lex_failed == old(self)@.lex_failed,
            final(self)@.pos == adv_i(old(self)@.tokens, old(self)@.pos),
    {
        let n = self.tokens.len();
        if self.pos < n - 1 {
            self.pos = self.pos + 1;
        }
    }

    /// Consumes the expected punctuation token, or reports what stood in
    /// its place.
    fn basic_token(&mut self, expected: Token) -> (r: Result<(), ParserError>)
        requires
            old(self).wf(),
            !old(self)@.lex_failed,
        ensures
            final(self).wf(),
            final(self)@.tokens == old(self)@.tokens,
            final(self)@.lex_failed == old(self)@.lex_failed,
            if unit_token_eq(tok(old(self)@.tokens, old(self)@.pos), expected@) {
                r is Ok && final(self)@.pos == adv_i(old(self)@.tokens, old(self)@.pos)
            } else {
                r is Err && final(self)@.pos == old(self)@.pos
            },
    {
        let same = token_matches(&self.tokens[self.pos], &expected);
        if same {
            self.advance();
            Ok(())
        } else {
            Err(ParserError { message: String::from_str("Expected a different token") })
        }
    }

    /// Consumes an identifier and hands its text back.
    fn expect_ident(&mut self) -> (r: Result<String, ParserError>)
        requires
            old(self).wf(),
            !old(self)@.lex_failed,
        ensures
            final(self).wf(),
            final(self)@.tokens == old(self)@.tokens,
            final(self)@.lex_failed == old(self)@.lex_failed,
            match tok(old(self)@.tokens, old(self)@.pos) {
                TokenV::Ident(n) => r matches Ok(s) && s@ == n && final(self)@.pos == adv_i(
                    old(self)@.tokens,
                    old(self)@.pos,
                ),
                _ => r is Err && final(self)@.pos == old(self)@.pos,
            },
    {
        let val: Option<String> = match &self.tokens[self.pos] {
            Token::Ident(n) => Some(n.clone()),
            _ => None,
        };
        match val {
            Some(v) => {
                self.advance();
                Ok(v)
            },
            None => Err(
                ParserError { message: String::from_str("Expected identifier") },
            ),
        }
    }

    /// A register name: `r` followed by its number.
    fn parse_register(name: &str) -> (r: Option<u8>)
        ensures
            r == register_of(name@),
    {
        let n = name.unicode_len();
        if n < 2 {
            return None;
        }
        if name.get_char(0) != 'r' {
            return None;
        }
        let ghost ds = name@.skip(1);
        let mut acc: u16 = 0;
        let mut i: usize = 1;
        proof {
            assert(ds.take(0) =~= Seq::<char>::empty());
        }
        while i < n
            invariant
                n == name@.len(),
                ds == name@.skip(1),
                1 <= i <= n,
                0 <= acc <= 255,
                forall|j: int| 1 <= j < i ==> is_digit(#[trigger] name@[j]),
                acc == dec_val(ds.take(i - 1)),
            decreases n - i,
        {
            let c = name.get_char(i);
            if !(c >= '0' && c <= '9') {
                return None;
            }
            let d: u16 = ((c as u8) - 48) as u16;
            proof {
                assert(ds.take(i as int).drop_last() =~= ds.take(i - 1));
                assert(ds.take(i as int).last() == name@[i as int]);
            }
            if acc > 25 || (acc == 25 && d > 5) {
                proof {
                    crate::lexer::lemma_dec_val_grow(ds, i as nat);
                }
                return None;
            }
            acc = acc * 10 + d;
            i = i + 1;
        }
        proof {
            assert(ds.take(n - 1) =~= ds);
        }
        Some(acc as u8)
    }

    /// The token after the cursor, without consuming anything.
    fn peek_token(&mut self) -> (r: Result<Token, ParserError>)
        requires
            old(self).wf(),
            !old(self)@.lex_failed,
        ensures
            *final(self) == *old(self),
            r matches Ok(t) && t@ == tok(old(self)@.tokens, old(self)@.pos + 1),
    {
        let n = self.tokens.len();
        if self.pos < n - 1 {
            Ok(clone_token(&self.tokens[self.pos + 1]))
        } else {
            Ok(Token::EOF)
        }
    }

    /// Whether the cursor still stands on a directive argument.
    fn taking_next_args(&mut self) -> (r: Result<bool, ParserError>)
        requires
            old(self).wf(),
            !old(self)@.lex_failed,
        ensures
            *final(self) == *old(self),
            r matches Ok(b) && b == !(tok(old(self)@.tokens, old(self)@.pos) is EOF || tok(
                old(self)@.tokens,
                old(self)@.pos,
            ) is Comment || tok(old(self)@.tokens, old(self)@.pos) is NEWLINE),
    {
        let b = match &self.tokens[self.pos] {
            Token::EOF => false,
            Token::Comment(_) => false,
            Token::NEWLINE => false,
            _ => true,
        };
        Ok(b)
    }

    /// A numeric expression: a reference, a literal, or a parenthesised
    /// binary operation.
    fn expect_numexpr(&mut self) -> (r: Result<NumExpr, ParserError>)
        requires
            old(self).wf(),
            !old(self)@.lex_failed,
        ensures
            final(self).wf(),
            final(self)@.tokens == old(self)@.tokens,
            final(self)@.lex_failed == old(self)@.lex_failed,
            final(self)@.pos >= old(self)@.pos,
            r is Ok ==> final(self)@.pos > old(self)@.pos,
            match numexpr_at(old(self)@.tokens, old(self)@.pos) {
                Some((e, np)) => r matches Ok(ex) && ex@ == e && final(self)@.pos == np,
                None => r is Err,
            },
        decreases old(self)@.tokens.len() - old(self)@.pos,
    {
        let ghost ts = self@.tokens;
        let ghost i0 = self@.pos;
        proof {
            lemma_numexpr_fuel(ts, i0, ts.len() + 1, ts.len() + 1);
        }
        let kind: u8 = match &self.tokens[self.pos] {
            Token::Ident(_) => 0,
            Token::Int(_) => 1,
            Token::Hex(_) => 2,
            Token::Binary(_) => 3,
            Token::LPAREN => 4,
            _ => 5,
        };
        if kind == 0 {
            let name = match self.expect_ident() {
                Ok(n) => n,
                Err(e) => {
                    return Err(e);
                },
            };
            Ok(NumExpr::Reference(name))
        } else if kind == 1 {
            let v = match &self.tokens[self.pos] {
                Token::Int(v) => *v,
                _ => 0,
            };
            self.advance();
            Ok(NumExpr::Raw(v))
        } else if kind == 2 || kind == 3 {
            let radix: u8 = if kind == 2 {
                16
            } else {
                2
            };
            let v = {
                let h: &String = match &self.tokens[self.pos] {
                    Token::Hex(h) => h,
                    Token::Binary(h) => h,
                    _ => {
                        return Err(
                            ParserError { message: String::from_str("expected numeric literal") },
                        );
                    },
                };
                match parse_radix(h.as_str(), radix) {
                    Ok(v) => v,
                    Err(e) => {
                        return Err(e);
                    },
                }
            };
            self.advance();
            Ok(NumExpr::Raw(v))
        } else if kind == 4 {
            match self.basic_token(Token::LPAREN) {
                Ok(()) => (),
                Err(e) => {
                    return Err(e);
                },
            }
            proof {
                lemma_numexpr_fuel(ts, self@.pos, ts.len(), ts.len() + 1);
            }
            let a = match self.expect_numexpr() {
                Ok(a) => a,
                Err(e) => {
                    return Err(e);
                },
            };
            let op: BinaryOp = match &self.tokens[self.pos] {
                Token::ASTERISK => BinaryOp::Mul,
                Token::PLUS => BinaryOp::Add,
                Token::MINUS => BinaryOp::Sub,
                Token::FSLASH => BinaryOp::Div,
                _ => {
                    return Err(
                        ParserError { message: String::from_str("Expected operation in expression") },
                    );
                },
            };
            self.advance();
            proof {
                lemma_numexpr_fuel(ts, self@.pos, ts.len(), ts.len() + 1);
            }
            let b = match self.expect_numexpr() {
                Ok(b) => b,
                Err(e) => {
                    return Err(e);
                },
            };
            match self.basic_token(Token::RPAREN) {
                Ok(()) => (),
                Err(e) => {
                    return Err(e);
                },
            }
            Ok(NumExpr::BinaryOperation { a: Box::new(a), operand: op, b: Box::new(b) })
        } else {
            Err(ParserError { message: String::from_str("Couldn't understand numexpr") })
        }
    }

    /// The `hi` or `lo` extractor, after its opening parenthesis.
    fn function_from_ident(&mut self, ident: &str) -> (r: Result<Function, ParserError>)
        requires
            old(self).wf(),
            !old(self)@.lex_failed,
        ensures
            final(self).wf(),
            final(self)@.tokens == old(self)@.tokens,
            final(self)@.lex_failed == old(self)@.lex_failed,
            final(self)@.pos >= old(self)@.pos,
            ({
                let ts = old(self)@.tokens;
                let i = old(self)@.pos;
                if ident@ == "hi"@ || ident@ == "lo"@ {
                    match numexpr_at(ts, i) {
                        Some((e, j)) => {
                            if unit_token_eq(tok(ts, j), TokenV::RPAREN) {
                                r matches Ok(f) && function_view(f) == (if ident@ == "hi"@ {
                                    FunctionV::Hi(Box::new(e))
                                } else {
                                    FunctionV::Lo(Box::new(e))
                                }) && final(self)@.pos == adv_i(ts, j)
                            } else {
                                r is Err
                            }
                        },
                        None => r is Err,
                    }
                } else {
                    r is Err
                }
            }),
    {
        if str_eq(ident, "hi") {
            let expr = match self.expect_numexpr() {
                Ok(e) => e,
                Err(e) => {
                    return Err(e);
                },
            };
            match self.basic_token(Token::RPAREN) {
                Ok(()) => (),
                Err(e) => {
                    return Err(e);
                },
            }
            Ok(Function::Hi(expr))
        } else if str_eq(ident, "lo") {
            let expr = match self.expect_numexpr() {
                Ok(e) => e,
                Err(e) => {
                    return Err(e);
                },
            };
            match self.basic_token(Token::RPAREN) {
                Ok(()) => (),
                Err(e) => {
                    return Err(e);
                },
            }
            Ok(Function::Lo(expr))
        } else {
            Err(ParserError { message: String::from_str("Couldn't understand function") })
        }
    }

    /// An instruction operand: a register, or an immediate expression
    /// (a literal, a reference, an extractor call, or a parenthesised
    /// binary expression).
    fn expect_operand(&mut self) -> (r: Result<Operand, ParserError>)
        requires
            old(self).wf(),
            !old(self)@.lex_failed,
        ensures
            final(self).wf(),
            final(self)@.tokens == old(self)@.tokens,
            final(self)@.lex_failed == old(self)@.lex_failed,
            final(self)@.pos >= old(self)@.pos,
            r is Ok ==> final(self)@.pos > old(self)@.pos,
            match p_operand(old(self)@.tokens, old(self)@.pos) {
                Some((opv, np)) => r matches Ok(o) && o@ == opv && final(self)@.pos == np,
                None => r is Err,
            },
    {
        let is_ident = matches!(&self.tokens[self.pos], Token::Ident(_));
        if is_ident {
            let name: String = match &self.tokens[self.pos] {
                Token::Ident(n) => n.clone(),
                _ => {
                    return Err(ParserError { message: String::from_str("expected identifier") });
                },
            };
            if let Some(reg) = Self::parse_register(name.as_str()) {
                self.advance();
                return Ok(Operand::Register(reg));
            }
            let next = match self.peek_token() {
                Ok(t) => t,
                Err(e) => {
                    return Err(e);
                },
            };
            if matches!(next, Token::LPAREN) {
                self.advance();
                match self.basic_token(Token::LPAREN) {
                    Ok(()) => (),
                    Err(e) => {
                        return Err(e);
                    },
                }
                let func = match self.function_from_ident(name.as_str()) {
                    Ok(f) => f,
                    Err(e) => {
                        return Err(e);
                    },
                };
                return Ok(Operand::Immediate(Expr::Num(NumExpr::Function(Box::new(func)))));
            }
            self.advance();
            Ok(Operand::Immediate(Expr::Num(NumExpr::Reference(name))))
        } else {
            let ne = match self.expect_numexpr() {
                Ok(e) => e,
                Err(e) => {
                    return Err(e);
                },
            };
            Ok(Operand::Immediate(Expr::Num(ne)))
        }
    }

    /// A two-operand instruction: mnemonic, mode, destination, comma,
    /// source. An immediate where a register pair was named promotes the
    /// mode (`rm` to `rmi`, `mr` to `mir`).
    fn parse_double_op(&mut self, opid: String, operand_length: OperandLength) -> (r: Result<
        Stmt,
        ParserError,
    >)
        requires
            old(self).wf(),
            !old(self)@.lex_failed,
        ensures
            final(self).wf(),
            final(self)@.tokens == old(self)@.tokens,
            final(self)@.lex_failed == old(self)@.lex_failed,
            final(self)@.pos >= old(self)@.pos,
            r is Ok ==> final(self)@.pos > old(self)@.pos,
            match p_double(old(self)@.tokens, old(self)@.pos, opid@, operand_length) {
                Some((st, np)) => r matches Ok(stmt) && stmt@ == st && final(self)@.pos == np,
                None => r is Err,
            },
    {
        match self.expect_ident() {
            Ok(_) => (),
            Err(e) => {
                return Err(e);
            },
        }
        let mode_ident = match self.expect_ident() {
            Ok(m) => m,
            Err(e) => {
                return Err(e);
            },
        };
        let m0 = match double_mode_lookup(mode_ident.as_str()) {
            Some(m) => m,
            None => {
                return Err(ParserError { message: String::from_str("Unable to get mode") });
            },
        };
        let dest = match self.expect_operand() {
            Ok(d) => d,
            Err(_) => {
                return Err(ParserError { message: String::from_str("Expected dest operand") });
            },
        };
        match self.basic_token(Token::COMMA) {
            Ok(()) => (),
            Err(e) => {
                return Err(e);
            },
        }
        let src = match self.expect_operand() {
            Ok(s) => s,
            Err(_) => {
                return Err(ParserError { message: String::from_str("Expected src operand") });
            },
        };
        let mut mode = m0;
        if !matches!(src, Operand::Register(_)) && mode == DoubleMode::Rm {
            mode = DoubleMode::Rmi;
        }
        if !matches!(dest, Operand::Register(_)) && mode == DoubleMode::Mr {
            mode = DoubleMode::Mir;
        }
        Ok(Stmt::DoubleOperation { opid, mode, dest, src, operand_length })
    }

    /// A one-operand instruction: mnemonic, mode, operand. An immediate
    /// where a register pair was named promotes `m` to `mi`.
    fn parse_single_op(&mut self, opid: String, operand_length: OperandLength) -> (r: Result<
        Stmt,
        ParserError,
    >)
        requires
            old(self).wf(),
            !old(self)@.lex_failed,
        ensures
            final(self).wf(),
            final(self)@.tokens == old(self)@.tokens,
            final(self)@.lex_failed == old(self)@.lex_failed,
            final(self)@.pos >= old(self)@.pos,
            r is Ok ==> final(self)@.pos > old(self)@.pos,
            match p_single(old(self)@.tokens, old(self)@.pos, opid@, operand_length) {
                Some((st, np)) => r matches Ok(stmt) && stmt@ == st && final(self)@.pos == np,
                None => r is Err,
            },
    {
        match self.expect_ident() {
            Ok(_) => (),
            Err(e) => {
                return Err(e);
            },
        }
        let mode_ident = match self.expect_ident() {
            Ok(m) => m,
            Err(e) => {
                return Err(e);
            },
        };
        let m0 = match single_mode_lookup(mode_ident.as_str()) {
            Some(m) => m,
            None => {
                return Err(ParserError { message: String::from_str("Unable to get mode") });
            },
        };
        let operand = match self.expect_operand() {
            Ok(o) => o,
            Err(e) => {
                return Err(e);
            },
        };
        let mut mode = m0;
        if !matches!(operand, Operand::Register(_)) && mode == SingleMode::M {
            mode = SingleMode::Mi;
        }
        Ok(Stmt::SingleOperation { opid, mode, operand, operand_length })
    }

    /// A zero-operand instruction: the mnemonic alone.
    fn parse_zero_op(&mut self, opid: String) -> (r: Result<Stmt, ParserError>)
        requires
            old(self).wf(),
            !old(self)@.lex_failed,
        ensures
            final(self).wf(),
            final(self)@.tokens == old(self)@.tokens,
            final(self)@.lex_failed == old(self)@.lex_failed,
            final(self)@.pos >= old(self)@.pos,
            r is Ok ==> final(self)@.pos > old(self)@.pos,
            match tok(old(self)@.tokens, old(self)@.pos) {
                TokenV::Ident(_) => r matches Ok(st) && st@ == StmtV::ZeroOperation {
                    opid: opid@,
                } && final(self)@.pos == adv_i(old(self)@.tokens, old(self)@.pos),
                _ => r is Err,
            },
    {
        match self.expect_ident() {
            Ok(_) => (),
            Err(e) => {
                return Err(e);
            },
        }
        Ok(Stmt::ZeroOperation { opid })
    }

    /// The comma-separated arguments of a directive, up to the end of the
    /// line.
    fn parse_sig(&mut self, sigid: String) -> (r: Result<Stmt, ParserError>)
        requires
            old(self).wf(),
            !old(self)@.lex_failed,
        ensures
            final(self).wf(),
            final(self)@.tokens == old(self)@.tokens,
            final(self)@.lex_failed == old(self)@.lex_failed,
            final(self)@.pos >= old(self)@.pos,
            match p_sig_stmt(old(self)@.tokens, old(self)@.pos, sigid@) {
                Some((st, np)) => r matches Ok(stmt) && stmt@ == st && final(self)@.pos == np,
                None => r is Err,
            },
    {
        let ghost ts = self@.tokens;
        let ghost i0 = self@.pos;
        let ghost namev = sigid@;
        let mut args: Vec<Expr> = Vec::new();
        let taking_args = match self.taking_next_args() {
            Ok(b) => b,
            Err(e) => {
                return Err(e);
            },
        };
        proof {
            assert(Seq::new(args@.len(), |k: int| args@[k]@) =~= Seq::<ExprV>::empty());
        }
        while taking_args
            invariant
                self.wf(),
                !self@.lex_failed,
                !old(self)@.lex_failed,
                ts == old(self)@.tokens,
                i0 == old(self)@.pos,
                namev == sigid@,
                self@.tokens == ts,
                self@.pos >= i0,
                taking_args == !(tok(ts, i0) is EOF || tok(ts, i0) is Comment || tok(
                    ts,
                    i0,
                ) is NEWLINE),
                !taking_args ==> self@.pos == i0 && args@.len() == 0,
                taking_args ==> match p_args(ts, self@.pos) {
                    Some((rest, np)) => p_args(ts, i0) == Some(
                        (Seq::new(args@.len(), |k: int| args@[k]@) + rest, np),
                    ),
                    None => p_args(ts, i0) is None,
                },
            decreases self@.tokens.len() - self@.pos,
        {
            let ghost p = self@.pos;
            let ghost before = Seq::new(args@.len(), |k: int| args@[k]@);
            let vectok: Expr = match &self.tokens[self.pos] {
                Token::Ident(s) => Expr::Num(NumExpr::Reference(s.clone())),
                Token::Int(i) => Expr::Num(NumExpr::Raw(*i)),
                Token::Hex(h) => {
                    let v = match parse_radix(h.as_str(), 16) {
                        Ok(v) => v,
                        Err(e) => {
                            proof {
                                assert(arg_of(tok(ts, p)) is None);
                            }
                            return Err(e);
                        },
                    };
                    Expr::Num(NumExpr::Raw(v))
                },
                Token::Binary(h) => {
                    let v = match parse_radix(h.as_str(), 2) {
                        Ok(v) => v,
                        Err(e) => {
                            proof {
                                assert(arg_of(tok(ts, p)) is None);
                            }
                            return Err(e);
                        },
                    };
                    Expr::Num(NumExpr::Raw(v))
                },
                Token::Str(s) => Expr::Str(StrExpr::Raw(s.clone())),
                Token::Char(c) => Expr::Num(NumExpr::Raw(((*c as u32) as i64))),
                _ => {
                    proof {
                        assert(arg_of(tok(ts, p)) is None);
                    }
                    return Err(ParserError { message: String::from_str("Expected Expr") });
                },
            };
            proof {
                assert(arg_of(tok(ts, p)) == Some(vectok@));
                assert(tok(ts, p) is EOF == false);
                assert(self@.pos < self@.tokens.len() - 1);
            }
            self.advance();
            args.push(vectok);
            proof {
                assert(Seq::new(args@.len(), |k: int| args@[k]@) =~= before.push(vectok@));
            }
            let ghost j = self@.pos;
            match self.basic_token(Token::COMMA) {
                Ok(()) => {
                    proof {
                        let (rest2, np2) = p_args(ts, self@.pos)->Some_0;
                        if p_args(ts, self@.pos) is Some {
                            assert(p_args(ts, p) == Some((seq![vectok@] + rest2, np2)));
                            assert(before + (seq![vectok@] + rest2) =~= before.push(vectok@)
                                + rest2);
                        }
                    }
                },
                Err(_) => {
                    proof {
                        assert(p_args(ts, p) == Some((seq![vectok@], j)));
                        assert(before + seq![vectok@] =~= before.push(vectok@));
                    }
                    return Ok(Stmt::Signal { name: sigid, args });
                },
            }
        }
        Ok(Stmt::Signal { name: sigid, args })
    }

    /// A directive: a period, its name, then its arguments.
    fn parse_signal(&mut self) -> (r: Result<Stmt, ParserError>)
        requires
            old(self).wf(),
            !old(self)@.lex_failed,
        ensures
            final(self).wf(),
            final(self)@.tokens == old(self)@.tokens,
            final(self)@.lex_failed == old(self)@.lex_failed,
            final(self)@.pos >= old(self)@.pos,
            r is Ok ==> final(self)@.pos > old(self)@.pos,
            match p_signal(old(self)@.tokens, old(self)@.pos) {
                Some((st, np)) => r matches Ok(stmt) && stmt@ == st && final(self)@.pos == np,
                None => r is Err,
            },
    {
        match self.basic_token(Token::PERIOD) {
            Ok(()) => (),
            Err(e) => {
                return Err(e);
            },
        }
        let sigid = match self.expect_ident() {
            Ok(s) => s,
            Err(_) => {
                return Err(
                    ParserError { message: String::from_str("Expected signal identifier") },
                );
            },
        };
        self.parse_sig(sigid)
    }

    /// One statement: an instruction, a label, a directive, a comment, a
    /// newline, or the end of the program.
    fn next_stmt(&mut self) -> (r: Result<Stmt, ParserError>)
        requires
            old(self).wf(),
            !old(self)@.lex_failed,
        ensures
            final(self).wf(),
            final(self)@.tokens == old(self)@.tokens,
            final(self)@.lex_failed == old(self)@.lex_failed,
            final(self)@.pos >= old(self)@.pos,
            r matches Ok(st) ==> (st is End || final(self)@.pos > old(self)@.pos),
            match stmt_at(old(self)@.tokens, old(self)@.pos) {
                Some((st, np)) => r matches Ok(stmt) && stmt@ == st && final(self)@.pos == np,
                None => r is Err,
            },
    {
        let kind: u8 = match &self.tokens[self.pos] {
            Token::EOF => 0,
            Token::Comment(_) => 1,
            Token::NEWLINE => 2,
            Token::Ident(_) => 3,
            Token::PERIOD => 4,
            _ => 5,
        };
        if kind == 0 {
            Ok(Stmt::End)
        } else if kind == 1 {
            let name: String = match &self.tokens[self.pos] {
                Token::Comment(c) => c.clone(),
                _ => String::new(),
            };
            self.advance();
            Ok(Stmt::Comment(name))
        } else if kind == 2 {
            self.advance();
            Ok(Stmt::Newline)
        } else if kind == 3 {
            let name: String = match &self.tokens[self.pos] {
                Token::Ident(s) => s.clone(),
                _ => String::new(),
            };
            match op_info_of(name.as_str()) {
                Some((OpKind::Double, l)) => self.parse_double_op(name, l),
                Some((OpKind::Single, l)) => self.parse_single_op(name, l),
                Some((OpKind::Zero, _)) => self.parse_zero_op(name),
                None => {
                    let next = match self.peek_token() {
                        Ok(t) => t,
                        Err(e) => {
                            return Err(e);
                        },
                    };
                    if matches!(next, Token::COLON) {
                        self.advance();
                        match self.basic_token(Token::COLON) {
                            Ok(()) => (),
                            Err(e) => {
                                return Err(e);
                            },
                        }
                        Ok(Stmt::Label(name))
                    } else {
                        Err(ParserError { message: String::from_str("Couldn't identify ident") })
                    }
                },
            }
        } else if kind == 4 {
            self.parse_signal()
        } else {
            Err(ParserError { message: String::from_str("Couldn't parse token") })
        }
    }

    /// The whole program: statements until the end of the token stream. A
    /// lexer error surfaces here.
    pub fn parse(&mut self) -> (r: Result<Vec<Stmt>, ParserError>)
        requires
            old(self).wf(),
        ensures
            final(self).wf(),
            final(self)@.tokens == old(self)@.tokens,
            final(self)@.lex_failed == old(self)@.lex_failed,
            r is Ok ==> !old(self)@.lex_failed,
            old(self)@.lex_failed ==> r is Err,
            !old(self)@.lex_failed ==> match stmts_from(old(self)@.tokens, old(self)@.pos) {
                Some(sts) => r matches Ok(prog) && stmt_views(prog@) == sts,
                None => r is Err,
            },
            r matches Ok(prog) ==> forall|k: int| 0 <= k < prog@.len() ==> !(#[trigger] prog@[k]@
                is End),
    {
        if self.lex_failed {
            return Err(ParserError { message: String::from_str("lexer error") });
        }
        let ghost ts = self@.tokens;
        let ghost pos0 = self@.pos;
        let mut program: Vec<Stmt> = Vec::new();
        let mut done = false;
        proof {
            assert(stmt_views(program@) =~= Seq::<StmtV>::empty());
        }
        while !done
            invariant
                self.wf(),
                !self@.lex_failed,
                !old(self)@.lex_failed,
                ts == old(self)@.tokens,
                pos0 == old(self)@.pos,
                self@.tokens == ts,
                forall|k: int| 0 <= k < program@.len() ==> !(#[trigger] program@[k]@ is End),
                !done ==> match stmts_from(ts, self@.pos) {
                    Some(rest) => stmts_from(ts, pos0) == Some(stmt_views(program@) + rest),
                    None => stmts_from(ts, pos0) is None,
                },
                done ==> stmts_from(ts, pos0) == Some(stmt_views(program@)),
            decreases (if done {
                0int
            } else {
                self@.tokens.len() - self@.pos + 1
            }),
        {
            let ghost cur = self@.pos;
            let ghost before = stmt_views(program@);
            let stmt = match self.next_stmt() {
                Ok(s) => s,
                Err(e) => {
                    return Err(e);
                },
            };
            if matches!(stmt, Stmt::End) {
                proof {
                    assert(before + Seq::<StmtV>::empty() =~= before);
                }
                done = true;
            } else {
                let ghost sv = stmt@;
                program.push(stmt);
                proof {
                    assert(stmt_views(program@) =~= before.push(sv));
                    let rest1 = stmts_from(ts, self@.pos);
                    if rest1 is Some {
                        assert(stmts_from(ts, cur) == Some(seq![sv] + rest1->Some_0));
                        assert(before + (seq![sv] + rest1->Some_0) =~= before.push(sv)
                            + rest1->Some_0);
                    }
                }
            }
        }
        Ok(program)
    }
}


} // verus!
