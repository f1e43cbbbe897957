use dnavm::assembler::Assembler;
use dnavm::bits::{get_bits_lsb, get_bits_msb};
use dnavm::lexer::{Lexer, Token};
use dnavm::parser::{Expr, NumExpr, Parser, Stmt};

fn assemble_text(src: &str) -> Result<Vec<(u16, Vec<u8>)>, String> {
    let lex = Lexer::new(src);
    let mut parser = Parser::new(lex);
    let program = parser.parse().map_err(|e| format!("{:?}", e))?;
    let mut assembler = Assembler::new(program);
    assembler.assemble().map_err(|e| format!("{:?}", e))
}

/// The two-pass scenario: labels recorded in the sizing pass resolve the
/// forward reference, and the emitted bytes carry the label's address.
#[test]
fn two_pass_forward_reference() {
    let src = "\
.org 0x0400
start: mov ri r0, lo(end)
mov ri r1, hi(end)
jmp i end
end: hlt
";
    let segs = assemble_text(src).expect("assembles");
    assert_eq!(segs.len(), 1);
    let (base, bytes) = &segs[0];
    assert_eq!(*base, 0x0400);
    // start = 0x0400, end = 0x0400 + 3 + 3 + 4 = 0x040A.
    assert_eq!(
        bytes,
        &vec![0x04, 0xC0, 0x0A, 0x04, 0xC8, 0x04, 0x2C, 0x80, 0x04, 0x0A, 0xFC, 0x00]
    );
}

/// Assembling a header and decoding it recovers the opcode, the mode and
/// both register fields.
#[test]
fn header_round_trip() {
    let src = "mov rr r3, r5\n";
    let segs = assemble_text(src).expect("assembles");
    let bytes = &segs[0].1;
    assert_eq!(bytes.len(), 2);
    let word = ((bytes[0] as u16) << 8) | (bytes[1] as u16);
    assert_eq!(get_bits_msb(word, 0, 5), 1); // mov
    assert_eq!(get_bits_msb(word, 6, 9), 0); // rr
    let reg = get_bits_msb(word, 10, 15);
    assert_eq!(get_bits_lsb(reg, 3, 5), 3);
    assert_eq!(get_bits_lsb(reg, 0, 2), 5);
}

/// The worked syntax forms: directives, constants, registers, hex and
/// binary literals, comments.
#[test]
fn syntax_forms() {
    let src = "\
; a comment
.org 0x0200
.const \"k\", 0b10
.byte 0x12, 'A', 7
add ri r2, k
push r r3
";
    let segs = assemble_text(src).expect("assembles");
    assert_eq!(segs.len(), 1);
    let (base, bytes) = &segs[0];
    assert_eq!(*base, 0x0200);
    // .byte: 0x12, 'A' = 0x41, 7; add ri r2, k -> 08 D0 02; push r r3 -> 50 18.
    assert_eq!(bytes, &vec![0x12, 0x41, 0x07, 0x08, 0xD0, 0x02, 0x50, 0x18]);
}

/// A reference no pass can resolve is an error in the emitting pass.
#[test]
fn undefined_label_is_error() {
    assert!(assemble_text("jmp i nowhere\n").is_err());
}

/// A `.byte` value outside a byte is an error.
#[test]
fn byte_range_is_checked() {
    assert!(assemble_text(".byte 256\n").is_err());
    assert!(assemble_text(".byte 255\n").is_ok());
}

/// A name cannot be both a label and a constant.
#[test]
fn label_const_collision() {
    assert!(assemble_text(".const \"x\", 1\nx: nop\n").is_err());
}

/// An unsupported directive is an error.
#[test]
fn unsupported_signal() {
    assert!(assemble_text(".nosuch 1\n").is_err());
}

/// Parenthesised address arithmetic evaluates in the assembler.
#[test]
fn binary_expression_operand() {
    let src = "\
.org 0x0400
here: jmp i (here + 4)
";
    let segs = assemble_text(src).expect("assembles");
    assert_eq!(segs[0].1, vec![0x2C, 0x80, 0x04, 0x04]);
}

/// The lexer's token stream for a small line.
#[test]
fn lexer_tokens() {
    let mut lex = Lexer::new("mov ri r0, 0x2A ; done\n");
    assert_eq!(lex.next_token().unwrap(), Token::Ident("mov".to_string()));
    assert_eq!(lex.next_token().unwrap(), Token::Ident("ri".to_string()));
    assert_eq!(lex.next_token().unwrap(), Token::Ident("r0".to_string()));
    assert_eq!(lex.next_token().unwrap(), Token::COMMA);
    assert_eq!(lex.next_token().unwrap(), Token::Hex("2a".to_string()));
    assert_eq!(lex.next_token().unwrap(), Token::Comment(" done".to_string()));
    assert_eq!(lex.next_token().unwrap(), Token::EOF);
}

/// Identifiers fold to lower case; underscores survive in names but are
/// dropped inside numeric literals; two-character comparisons lex as one
/// token.
#[test]
fn lexer_details() {
    let mut lex = Lexer::new("My_Label 0b1010_1010 <= >");
    assert_eq!(lex.next_token().unwrap(), Token::Ident("my_label".to_string()));
    assert_eq!(lex.next_token().unwrap(), Token::Binary("10101010".to_string()));
    assert_eq!(lex.next_token().unwrap(), Token::LESSTHANEQ);
    assert_eq!(lex.next_token().unwrap(), Token::GREATERTHAN);
    assert_eq!(lex.next_token().unwrap(), Token::EOF);
}

/// Peeking never moves the cursor.
#[test]
fn lexer_peek() {
    let mut lex = Lexer::new("ab cd");
    assert_eq!(lex.peek_next_char().unwrap(), 'b');
    assert_eq!(lex.peek_next_token().unwrap(), Token::Ident("ab".to_string()));
    assert_eq!(lex.next_token().unwrap(), Token::Ident("ab".to_string()));
}

/// A decimal literal too large for a signed 64-bit value is a lexer error.
#[test]
fn lexer_int_overflow() {
    let mut lex = Lexer::new("99999999999999999999");
    assert!(lex.next_token().is_err());
    let mut lex2 = Lexer::new("9223372036854775807");
    assert_eq!(lex2.next_token().unwrap(), Token::Int(i64::MAX));
}

/// The parser classifies statements: mnemonics by arity, labels by the
/// trailing colon, and promotes `rm` to `rmi` when the source operand is
/// an immediate.
#[test]
fn parser_statements() {
    let lex = Lexer::new("loop: mov rm r0, 0x1234\nnop\n");
    let mut parser = Parser::new(lex);
    let prog = parser.parse().expect("parses");
    assert_eq!(prog.len(), 5); // label, mov, newline, nop, newline
    assert_eq!(prog[0], Stmt::Label("loop".to_string()));
    match &prog[1] {
        Stmt::DoubleOperation { opid, mode, src, .. } => {
            assert_eq!(opid, "mov");
            assert_eq!(*mode, dnavm::parser::DoubleMode::Rmi);
            assert_eq!(
                src,
                &dnavm::parser::Operand::Immediate(Expr::Num(NumExpr::Raw(0x1234)))
            );
        },
        other => panic!("expected a double operation, got {:?}", other),
    }
    let mut parser2 = Parser::new(Lexer::new("frob r0\n"));
    assert!(parser2.parse().is_err());
}

/// Building a program by hand and assembling it: the assembler is usable
/// without the text front end.
#[test]
fn assemble_built_statements() {
    let program = vec![Stmt::ZeroOperation { opid: "nop".to_string() }, Stmt::Signal {
        name: "byte".to_string(),
        args: vec![Expr::Num(NumExpr::Raw(300))],
    }];
    let mut assembler = Assembler::new(program);
    assert!(assembler.assemble().is_err());

    let mut assembler2 = Assembler::new(vec![Stmt::ZeroOperation { opid: "nop".to_string() }]);
    let segs = assembler2.assemble().expect("assembles");
    assert_eq!(segs, vec![(0u16, vec![0x00, 0x00])]);
}
