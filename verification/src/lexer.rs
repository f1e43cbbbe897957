//! The lexer: a character stream turned into assembly tokens.

use vstd::prelude::*;
use vstd::string::{StrSliceExecFns, StringExecFns};

verus! {

/// Relies on `String::push`: appends the given character to the end of the
/// string.
pub assume_specification[ String::push ](s: &mut String, ch: char)
    ensures
        final(s)@ == old(s)@.push(ch),
;

/// An error that aborts the build, with a diagnostic for the host.
#[derive(Debug)]
pub struct LexerError {
    pub message: String,
}

/// A token of the assembly language.
#[derive(Debug, PartialEq, Clone)]
pub enum Token {
    Ident(String),
    Int(i64),
    Hex(String),
    Binary(String),
    Str(String),
    Char(char),
    Comment(String),
    PLUS,
    MINUS,
    COLON,
    ASTERISK,
    FSLASH,
    UNDERSCORE,
    LPAREN,
    EXCLAMATION,
    RPAREN,
    LESSTHAN,
    GREATERTHAN,
    LESSTHANEQ,
    GREATERTHANEQ,
    LSQBRACK,
    RSQBRACK,
    COMMA,
    EQUALS,
    LCURL,
    RCURL,
    EOF,
    PERIOD,
    NEWLINE,
    TAB,
}

/// The abstract value of a token: its text as a character sequence.
#[verifier::ext_equal]
pub ghost enum TokenV {
    Ident(Seq<char>),
    Int(i64),
    Hex(Seq<char>),
    Binary(Seq<char>),
    Str(Seq<char>),
    Char(char),
    Comment(Seq<char>),
    PLUS,
    MINUS,
    COLON,
    ASTERISK,
    FSLASH,
    UNDERSCORE,
    LPAREN,
    EXCLAMATION,
    RPAREN,
    LESSTHAN,
    GREATERTHAN,
    LESSTHANEQ,
    GREATERTHANEQ,
    LSQBRACK,
    RSQBRACK,
    COMMA,
    EQUALS,
    LCURL,
    RCURL,
    EOF,
    PERIOD,
    NEWLINE,
    TAB,
}

impl View for Token {
    type V = TokenV;

    open spec fn view(&self) -> TokenV {
        match self {
            Token::Ident(s) => TokenV::Ident(s@),
            Token::Int(i) => TokenV::Int(*i),
            Token::Hex(s) => TokenV::Hex(s@),
            Token::Binary(s) => TokenV::Binary(s@),
            Token::Str(s) => TokenV::Str(s@),
            Token::Char(c) => TokenV::Char(*c),
            Token::Comment(s) => TokenV::Comment(s@),
            Token::PLUS => TokenV::PLUS,
            Token::MINUS => TokenV::MINUS,
            Token::COLON => TokenV::COLON,
            Token::ASTERISK => TokenV::ASTERISK,
            Token::FSLASH => TokenV::FSLASH,
            Token::UNDERSCORE => TokenV::UNDERSCORE,
            Token::LPAREN => TokenV::LPAREN,
            Token::EXCLAMATION => TokenV::EXCLAMATION,
            Token::RPAREN => TokenV::RPAREN,
            Token::LESSTHAN => TokenV::LESSTHAN,
            Token::GREATERTHAN => TokenV::GREATERTHAN,
            Token::LESSTHANEQ => TokenV::LESSTHANEQ,
            Token::GREATERTHANEQ => TokenV::GREATERTHANEQ,
            Token::LSQBRACK => TokenV::LSQBRACK,
            Token::RSQBRACK => TokenV::RSQBRACK,
            Token::COMMA => TokenV::COMMA,
            Token::EQUALS => TokenV::EQUALS,
            Token::LCURL => TokenV::LCURL,
            Token::RCURL => TokenV::RCURL,
            Token::EOF => TokenV::EOF,
            Token::PERIOD => TokenV::PERIOD,
            Token::NEWLINE => TokenV::NEWLINE,
            Token::TAB => TokenV::TAB,
        }
    }
}

// ---------------------------------------------------------------------------
// Character classes. Identifiers and numbers are ASCII.
// ---------------------------------------------------------------------------
pub open spec fn is_alpha(c: char) -> bool {
    ('a' <= c && c <= 'z') || ('A' <= c && c <= 'Z')
}

pub open spec fn is_digit(c: char) -> bool {
    '0' <= c && c <= '9'
}

pub open spec fn is_ident_char(c: char) -> bool {
    is_alpha(c) || is_digit(c) || c == '_'
}

/// ASCII lower-casing.
pub open spec fn lower_char(c: char) -> char {
    if 'A' <= c && c <= 'Z' {
        ((c as u8) + 32) as char
    } else {
        c
    }
}

/// The numeric value of a decimal digit; zero elsewhere.
pub open spec fn digit_val(c: char) -> int {
    if is_digit(c) {
        c as int - 48
    } else {
        0
    }
}

/// The value of a decimal digit string.
pub open spec fn dec_val(s: Seq<char>) -> int
    decreases s.len(),
{
    if s.len() == 0 {
        0
    } else {
        dec_val(s.drop_last()) * 10 + digit_val(s.last())
    }
}

// ---------------------------------------------------------------------------
// Scanners as functions of the source text.
// ---------------------------------------------------------------------------
/// The first position at or after `pos` that does not continue an
/// identifier.
pub open spec fn ident_end(src: Seq<char>, pos: nat) -> nat
    decreases src.len() - pos,
{
    if pos >= src.len() {
        pos
    } else if is_ident_char(src[pos as int]) {
        ident_end(src, pos + 1)
    } else {
        pos
    }
}

/// The identifier starting at `pos`, lower-cased; with `skip_underscores`
/// the underscores are dropped.
pub open spec fn ident_chars(src: Seq<char>, pos: nat, skip_underscores: bool) -> Seq<char>
    decreases src.len() - pos,
{
    if pos >= src.len() || !is_ident_char(src[pos as int]) {
        Seq::empty()
    } else {
        let rest = ident_chars(src, pos + 1, skip_underscores);
        if src[pos as int] == '_' && skip_underscores {
            rest
        } else {
            seq![lower_char(src[pos as int])] + rest
        }
    }
}

/// The first position at or after `pos` holding a non-digit.
pub open spec fn digits_end(src: Seq<char>, pos: nat) -> nat
    decreases src.len() - pos,
{
    if pos >= src.len() {
        pos
    } else if is_digit(src[pos as int]) {
        digits_end(src, pos + 1)
    } else {
        pos
    }
}

/// The first position at or after `pos` holding a double quote, if any.
pub open spec fn string_end(src: Seq<char>, pos: nat) -> Option<nat>
    decreases src.len() - pos,
{
    if pos >= src.len() {
        None
    } else if src[pos as int] == '"' {
        Some(pos)
    } else {
        string_end(src, pos + 1)
    }
}

/// The first position at or after `pos` holding an end-of-line, if any.
pub open spec fn line_end(src: Seq<char>, pos: nat) -> Option<nat>
    decreases src.len() - pos,
{
    if pos >= src.len() {
        None
    } else if src[pos as int] == '\n' || src[pos as int] == '\r' {
        Some(pos)
    } else {
        line_end(src, pos + 1)
    }
}

/// The comment text from `pos` to the end of the line, lower-cased.
pub open spec fn comment_chars(src: Seq<char>, pos: nat) -> Seq<char>
    decreases src.len() - pos,
{
    if pos >= src.len() || src[pos as int] == '\n' || src[pos as int] == '\r' {
        Seq::empty()
    } else {
        seq![lower_char(src[pos as int])] + comment_chars(src, pos + 1)
    }
}

/// Whitespace that separates tokens without being one: anything ASCII
/// except the newline and tab characters, which lex as tokens of their own.
pub open spec fn is_skip_ws(c: char) -> bool {
    c == ' ' || c == '\u{c}'
}

/// What the next token at `pos` is, and where the one after it starts.
/// `None` is a lexer error.
pub open spec fn token_at(src: Seq<char>, pos: nat) -> Option<(TokenV, nat)>
    decreases src.len() - pos,
{
    if pos >= src.len() {
        Some((TokenV::EOF, pos))
    } else {
        let c = src[pos as int];
        if c == ';' || c == '~' {
            match line_end(src, pos + 1) {
                None => None,
                Some(e) => Some((TokenV::Comment(comment_chars(src, pos + 1)), e + 1)),
            }
        } else if c == '\r' {
            if pos + 1 >= src.len() {
                None
            } else if src[pos as int + 1] == '\n' {
                Some((TokenV::NEWLINE, pos + 2))
            } else if src[pos as int + 1] == '\t' {
                Some((TokenV::TAB, pos + 2))
            } else {
                None
            }
        } else if c == '\n' {
            Some((TokenV::NEWLINE, pos + 1))
        } else if c == '\t' {
            Some((TokenV::TAB, pos + 1))
        } else if c == '+' {
            Some((TokenV::PLUS, pos + 1))
        } else if c == '-' {
            Some((TokenV::MINUS, pos + 1))
        } else if c == '_' {
            Some((TokenV::UNDERSCORE, pos + 1))
        } else if c == '(' {
            Some((TokenV::LPAREN, pos + 1))
        } else if c == ')' {
            Some((TokenV::RPAREN, pos + 1))
        } else if c == '[' {
            Some((TokenV::LSQBRACK, pos + 1))
        } else if c == ']' {
            Some((TokenV::RSQBRACK, pos + 1))
        } else if c == '/' {
            Some((TokenV::FSLASH, pos + 1))
        } else if c == ':' {
            Some((TokenV::COLON, pos + 1))
        } else if c == '{' {
            Some((TokenV::LCURL, pos + 1))
        } else if c == '}' {
            Some((TokenV::RCURL, pos + 1))
        } else if c == '*' {
            Some((TokenV::ASTERISK, pos + 1))
        } else if c == '=' {
            Some((TokenV::EQUALS, pos + 1))
        } else if c == ',' {
            Some((TokenV::COMMA, pos + 1))
        } else if c == '<' {
            if pos + 1 < src.len() && src[pos as int + 1] == '=' {
                Some((TokenV::LESSTHANEQ, pos + 2))
            } else {
                Some((TokenV::LESSTHAN, pos + 1))
            }
        } else if c == '>' {
            if pos + 1 < src.len() && src[pos as int + 1] == '=' {
                Some((TokenV::GREATERTHANEQ, pos + 2))
            } else {
                Some((TokenV::GREATERTHAN, pos + 1))
            }
        } else if c == '!' {
            Some((TokenV::EXCLAMATION, pos + 1))
        } else if c == '.' {
            Some((TokenV::PERIOD, pos + 1))
        } else if c == '"' {
            match string_end(src, pos + 1) {
                None => None,
                Some(e) => Some((TokenV::Str(src.subrange(pos as int + 1, e as int)), e + 1)),
            }
        } else if c == '\'' {
            if pos + 1 < src.len() && src[pos as int + 1] != '\'' {
                Some(
                    (
                        TokenV::Char(src[pos as int + 1]),
                        if pos + 2 < src.len() {
                            pos + 3
                        } else {
                            pos + 2
                        },
                    ),
                )
            } else {
                None
            }
        } else if is_alpha(c) {
            Some((TokenV::Ident(ident_chars(src, pos, false)), ident_end(src, pos)))
        } else if is_digit(c) {
            if c == '0' && pos + 1 < src.len() && src[pos as int + 1] == 'x' {
                Some((TokenV::Hex(ident_chars(src, pos + 2, true)), ident_end(src, pos + 2)))
            } else if c == '0' && pos + 1 < src.len() && src[pos as int + 1] == 'b' {
                Some((TokenV::Binary(ident_chars(src, pos + 2, true)), ident_end(src, pos + 2)))
            } else {
                let e = digits_end(src, pos);
                let v = dec_val(src.subrange(pos as int, e as int));
                if v > i64::MAX {
                    None
                } else {
                    Some((TokenV::Int(v as i64), e))
                }
            }
        } else if is_skip_ws(c) {
            token_at(src, pos + 1)
        } else {
            None
        }
    }
}


/// The scan for the end of a digit run never moves backwards, and never
/// past the end of the text.
proof fn lemma_digits_end_ge(src: Seq<char>, pos: nat)
    ensures
        digits_end(src, pos) >= pos,
        pos <= src.len() ==> digits_end(src, pos) <= src.len(),
    decreases src.len() - pos,
{
    if pos < src.len() && is_digit(src[pos as int]) {
        lemma_digits_end_ge(src, pos + 1);
    }
}

pub proof fn lemma_dec_val_nonneg(s: Seq<char>)
    ensures
        dec_val(s) >= 0,
    decreases s.len(),
{
    if s.len() > 0 {
        lemma_dec_val_nonneg(s.drop_last());
    }
}

/// A decimal string's value is at least the value of any of its prefixes.
pub proof fn lemma_dec_val_grow(s: Seq<char>, k: nat)
    requires
        k <= s.len(),
    ensures
        dec_val(s.take(k as int)) <= dec_val(s),
    decreases s.len() - k,
{
    if k < s.len() {
        lemma_dec_val_grow(s, k + 1);
        assert(s.take(k as int + 1).drop_last() =~= s.take(k as int));
        assert(s.take(k as int + 1).last() == s[k as int]);
        lemma_dec_val_nonneg(s.take(k as int));
        assert(dec_val(s.take(k as int)) <= dec_val(s.take(k as int)) * 10 + digit_val(
            s[k as int],
        )) by (nonlinear_arith)
            requires
                dec_val(s.take(k as int)) >= 0 && digit_val(s[k as int]) >= 0,
        ;
    } else {
        assert(s.take(k as int) =~= s);
    }
}

/// The abstract state of a lexer: the text and the cursor.
#[verifier::ext_equal]
pub ghost struct LexerView {
    pub src: Seq<char>,
    pub pos: nat,
}

/// The lexer: a character buffer and a cursor.
#[derive(Debug, PartialEq)]
pub struct Lexer {
    src: Vec<char>,
    pos: usize,
}

impl View for Lexer {
    type V = LexerView;

    closed spec fn view(&self) -> LexerView {
        LexerView { src: self.src@, pos: self.pos as nat }
    }
}

impl Lexer {
    pub fn new(input: &str) -> (lx: Lexer)
        ensures
            lx@.src == input@,
            lx@.pos == 0,
    {
        let n = input.unicode_len();
        let mut src: Vec<char> = Vec::new();
        let mut i: usize = 0;
        while i < n
            invariant
                i <= n,
                n == input@.len(),
                src@ =~= input@.subrange(0, i as int),
            decreases n - i,
        {
            let c = input.get_char(i);
            src.push(c);
            proof {
                assert(src@ =~= input@.subrange(0, i + 1));
            }
            i = i + 1;
        }
        proof {
            assert(src@ =~= input@);
        }
        Lexer { src, pos: 0 }
    }

    /// Moves the cursor forward one character; at the end of the text it
    /// stays put.
    fn advance(&mut self)
        ensures
            final(self)@.src == old(self)@.src,
            final(self)@.pos == (if old(self)@.pos < old(self)@.src.len() {
                old(self)@.pos + 1
            } else {
                old(self)@.pos
            }),
    {
        if self.pos < self.src.len() {
            self.pos = self.pos + 1;
        }
    }

    fn peek(&self) -> (r: Option<char>)
        ensures
            self@.pos < self@.src.len() ==> r == Some(self@.src[self@.pos as int]),
            self@.pos >= self@.src.len() ==> r is None,
    {
        if self.pos >= self.src.len() {
            None
        } else {
            Some(self.src[self.pos])
        }
    }

    fn is_eof(&self) -> (r: bool)
        ensures
            r == (self@.pos >= self@.src.len()),
    {
        self.pos >= self.src.len()
    }

    /// Moves the cursor past any whitespace.
    fn skip_whitespace(&mut self)
        ensures
            final(self)@.src == old(self)@.src,
            final(self)@.pos >= old(self)@.pos,
    {
        while self.pos < self.src.len() && (self.src[self.pos] == ' ' || self.src[self.pos]
            == '\t' || self.src[self.pos] == '\n' || self.src[self.pos] == '\r' || self.src[self.pos]
            == '\u{c}')
            invariant
                self@.src == old(self)@.src,
                self@.pos >= old(self)@.pos,
            decreases self@.src.len() - self@.pos,
        {
            self.advance();
        }
    }


    /// ASCII lower-casing of one character.
    fn to_lower(c: char) -> (r: char)
        ensures
            r == lower_char(c),
    {
        if c >= 'A' && c <= 'Z' {
            ((c as u8) + 32) as char
        } else {
            c
        }
    }

    /// A double-quoted string, with no escapes; reaching the end of the
    /// text before the closing quote is an error.
    fn read_string(&mut self) -> (r: Result<Token, LexerError>)
        requires
            old(self)@.pos < old(self)@.src.len(),
        ensures
            final(self)@.src == old(self)@.src,
            final(self)@.pos <= final(self)@.src.len(),
            match string_end(old(self)@.src, old(self)@.pos + 1) {
                Some(e) => r matches Ok(t) && t@ == TokenV::Str(
                    old(self)@.src.subrange(old(self)@.pos as int + 1, e as int),
                ) && final(self)@.pos == e + 1,
                None => r is Err,
            },
    {
        let ghost src = self@.src;
        let ghost pos0 = self@.pos;
        self.advance();
        let mut string_token: String = String::new();
        while self.pos < self.src.len() && self.src[self.pos] != '"'
            invariant
                self@.src == src,
                pos0 + 1 <= self@.pos <= src.len(),
                string_end(src, pos0 + 1) == string_end(src, self@.pos),
                string_token@ == src.subrange(pos0 as int + 1, self@.pos as int),
            decreases src.len() - self@.pos,
        {
            let c = self.src[self.pos];
            string_token.push(c);
            self.advance();
            proof {
                assert(string_token@ =~= src.subrange(pos0 as int + 1, self@.pos as int));
            }
        }
        if self.pos >= self.src.len() {
            Err(LexerError { message: String::from_str("EOF before string end.") })
        } else {
            self.advance();
            Ok(Token::Str(string_token))
        }
    }

    /// A single-quoted character literal.
    fn read_char(&mut self) -> (r: Result<Token, LexerError>)
        requires
            old(self)@.pos < old(self)@.src.len(),
        ensures
            final(self)@.src == old(self)@.src,
            final(self)@.pos <= final(self)@.src.len(),
            ({
                let src = old(self)@.src;
                let pos = old(self)@.pos;
                if pos + 1 < src.len() && src[pos as int + 1] != '\'' {
                    r matches Ok(t) && t@ == TokenV::Char(src[pos as int + 1]) && final(self)@.pos
                        == (if pos + 2 < src.len() {
                        pos + 3
                    } else {
                        pos + 2
                    })
                } else {
                    r is Err
                }
            }),
    {
        self.advance();
        match self.peek() {
            Some(c) => {
                if c != '\'' {
                    self.advance();
                    self.advance();
                    Ok(Token::Char(c))
                } else {
                    Err(LexerError { message: String::from_str("Couldn't lex character") })
                }
            },
            None => Err(LexerError { message: String::from_str("Couldn't lex character") }),
        }
    }

    /// A comment: everything to the end of the line, lower-cased; the end
    /// of line itself is consumed. A comment that the text ends inside is
    /// an error.
    fn read_comment(&mut self) -> (r: Result<Token, LexerError>)
        requires
            old(self)@.pos < old(self)@.src.len(),
        ensures
            final(self)@.src == old(self)@.src,
            final(self)@.pos <= final(self)@.src.len(),
            match line_end(old(self)@.src, old(self)@.pos + 1) {
                Some(e) => r matches Ok(t) && t@ == TokenV::Comment(
                    comment_chars(old(self)@.src, old(self)@.pos + 1),
                ) && final(self)@.pos == e + 1,
                None => r is Err,
            },
    {
        let ghost src = self@.src;
        let ghost pos0 = self@.pos;
        self.advance();
        let mut string_token: String = String::new();
        while self.pos < self.src.len() && self.src[self.pos] != '\n' && self.src[self.pos]
            != '\r'
            invariant
                self@.src == src,
                pos0 + 1 <= self@.pos <= src.len(),
                line_end(src, pos0 + 1) == line_end(src, self@.pos),
                comment_chars(src, pos0 + 1) == string_token@ + comment_chars(src, self@.pos),
            decreases src.len() - self@.pos,
        {
            let c = self.src[self.pos];
            string_token.push(Self::to_lower(c));
            self.advance();
            proof {
                assert(string_token@.drop_last() + (seq![lower_char(c)] + comment_chars(
                    src,
                    self@.pos as nat,
                )) =~= string_token@ + comment_chars(src, self@.pos as nat));
            }
        }
        if self.pos >= self.src.len() {
            Err(LexerError { message: String::from_str("EOF before string end.") })
        } else {
            proof {
                assert(comment_chars(src, self@.pos as nat) =~= Seq::<char>::empty());
                assert(string_token@ + Seq::<char>::empty() =~= string_token@);
            }
            self.advance();
            Ok(Token::Comment(string_token))
        }
    }

    /// An identifier: letters, digits and underscores, lower-cased; with
    /// `ignore_underscores` the underscores are dropped (digit strings use
    /// this).
    fn read_ident(&mut self, ignore_underscores: bool) -> (r: Result<Token, LexerError>)
        requires
            old(self)@.pos <= old(self)@.src.len(),
        ensures
            final(self)@.src == old(self)@.src,
            final(self)@.pos <= final(self)@.src.len(),
            final(self)@.pos == ident_end(old(self)@.src, old(self)@.pos),
            r matches Ok(t) && t@ == TokenV::Ident(
                ident_chars(old(self)@.src, old(self)@.pos, ignore_underscores),
            ),
    {
        let ghost src = self@.src;
        let ghost pos0 = self@.pos;
        let mut ident_token: String = String::new();
        proof {
            assert(Seq::<char>::empty() + ident_chars(src, pos0, ignore_underscores)
                =~= ident_chars(src, pos0, ignore_underscores));
        }
        while self.pos < self.src.len() && ((self.src[self.pos] >= 'a' && self.src[self.pos]
            <= 'z') || (self.src[self.pos] >= 'A' && self.src[self.pos] <= 'Z') || (
        self.src[self.pos] >= '0' && self.src[self.pos] <= '9') || self.src[self.pos] == '_')
            invariant
                self@.src == src,
                pos0 <= self@.pos <= src.len(),
                ident_end(src, pos0) == ident_end(src, self@.pos),
                ident_chars(src, pos0, ignore_underscores) == ident_token@ + ident_chars(
                    src,
                    self@.pos,
                    ignore_underscores,
                ),
            decreases src.len() - self@.pos,
        {
            let c = self.src[self.pos];
            let ghost before = ident_token@;
            if c == '_' && ignore_underscores {
            } else {
                ident_token.push(Self::to_lower(c));
            }
            self.advance();
            proof {
                if c == '_' && ignore_underscores {
                } else {
                    assert(before + (seq![lower_char(c)] + ident_chars(
                        src,
                        self@.pos as nat,
                        ignore_underscores,
                    )) =~= ident_token@ + ident_chars(src, self@.pos as nat, ignore_underscores));
                }
            }
        }
        proof {
            assert(ident_chars(src, self@.pos as nat, ignore_underscores)
                =~= Seq::<char>::empty());
            assert(ident_token@ + Seq::<char>::empty() =~= ident_token@);
        }
        Ok(Token::Ident(ident_token))
    }

    /// The digits of a hexadecimal literal, after the `0x` prefix.
    fn read_hex(&mut self) -> (r: Result<Token, LexerError>)
        requires
            old(self)@.pos + 1 < old(self)@.src.len(),
        ensures
            final(self)@.src == old(self)@.src,
            final(self)@.pos <= final(self)@.src.len(),
            final(self)@.pos == ident_end(old(self)@.src, old(self)@.pos + 2),
            r matches Ok(t) && t@ == TokenV::Hex(
                ident_chars(old(self)@.src, old(self)@.pos + 2, true),
            ),
    {
        self.advance();
        self.advance();
        match self.read_ident(true) {
            Ok(Token::Ident(s)) => Ok(Token::Hex(s)),
            _ => Err(LexerError { message: String::from_str("Expected a string w/in ident") }),
        }
    }

    /// The digits of a binary literal, after the `0b` prefix.
    fn read_binary(&mut self) -> (r: Result<Token, LexerError>)
        requires
            old(self)@.pos + 1 < old(self)@.src.len(),
        ensures
            final(self)@.src == old(self)@.src,
            final(self)@.pos <= final(self)@.src.len(),
            final(self)@.pos == ident_end(old(self)@.src, old(self)@.pos + 2),
            r matches Ok(t) && t@ == TokenV::Binary(
                ident_chars(old(self)@.src, old(self)@.pos + 2, true),
            ),
    {
        self.advance();
        self.advance();
        match self.read_ident(true) {
            Ok(Token::Ident(s)) => Ok(Token::Binary(s)),
            _ => Err(LexerError { message: String::from_str("Expected a string w/in ident") }),
        }
    }

    fn basic_token(&mut self, token: Token) -> (r: Token)
        requires
            old(self)@.pos < old(self)@.src.len(),
        ensures
            final(self)@.src == old(self)@.src,
            final(self)@.pos == old(self)@.pos + 1,
            r == token,
    {
        self.advance();
        token
    }

    /// A decimal integer literal; one whose value does not fit a signed
    /// 64-bit integer is an error.
    fn read_int(&mut self) -> (r: Result<Token, LexerError>)
        requires
            old(self)@.pos <= old(self)@.src.len(),
        ensures
            final(self)@.src == old(self)@.src,
            final(self)@.pos <= final(self)@.src.len(),
            ({
                let e = digits_end(old(self)@.src, old(self)@.pos);
                let v = dec_val(old(self)@.src.subrange(old(self)@.pos as int, e as int));
                if v > i64::MAX {
                    r is Err
                } else {
                    r matches Ok(t) && t@ == TokenV::Int(v as i64) && final(self)@.pos == e
                }
            }),
    {
        let ghost src = self@.src;
        let ghost pos0 = self@.pos;
        let ghost e = digits_end(src, pos0);
        let ghost all = src.subrange(pos0 as int, e as int);
        let mut acc: i64 = 0;
        proof {
            lemma_digits_end_ge(src, pos0);
            assert(src.subrange(pos0 as int, pos0 as int) =~= all.take(0));
            assert(src.subrange(pos0 as int, pos0 as int).len() == 0);
        }
        while self.pos < self.src.len() && self.src[self.pos] >= '0' && self.src[self.pos] <= '9'
            invariant
                src == old(self)@.src,
                pos0 == old(self)@.pos,
                self@.src == src,
                pos0 <= self@.pos <= src.len(),
                e == digits_end(src, pos0) == digits_end(src, self@.pos),
                self@.pos <= e,
                all == src.subrange(pos0 as int, e as int),
                0 <= acc <= i64::MAX,
                acc == dec_val(src.subrange(pos0 as int, self@.pos as int)),
            decreases src.len() - self@.pos,
        {
            let ghost i = self@.pos;
            let c = self.src[self.pos];
            let d: i64 = ((c as u8) - 48) as i64;
            proof {
                assert(src.subrange(pos0 as int, i as int + 1).drop_last() =~= src.subrange(
                    pos0 as int,
                    i as int,
                ));
                assert(src.subrange(pos0 as int, i as int + 1).last() == src[i as int]);
            }
            if acc > (i64::MAX - d) / 10 {
                proof {
                    assert(acc * 10 + d > i64::MAX) by (nonlinear_arith)
                        requires
                            acc > (i64::MAX - d) / 10 && 0 <= d <= 9 && acc >= 0,
                    ;
                    assert(i < e) by {
                        lemma_digits_end_ge(src, (i + 1) as nat);
                        assert(digits_end(src, i as nat) == digits_end(src, (i + 1) as nat));
                    }
                    lemma_digits_end_ge(src, pos0);
                    assert(all.len() == e - pos0);
                    assert(i - pos0 + 1 <= all.len());
                    assert forall|j: int| 0 <= j < i + 1 - pos0 implies #[trigger] src.subrange(
                        pos0 as int,
                        i as int + 1,
                    )[j] == all.take(i - pos0 + 1)[j] by {
                        assert(all.take(i - pos0 + 1)[j] == all[j]);
                        assert(all[j] == src[pos0 + j]);
                    }
                    assert(src.subrange(pos0 as int, i as int + 1) =~= all.take(
                        i - pos0 + 1,
                    ));
                    lemma_dec_val_grow(all, (i - pos0 + 1) as nat);
                }
                return Err(
                    LexerError {
                        message: String::from_str(
                            "Failure to parse integer in character stream.",
                        ),
                    },
                );
            }
            proof {
                assert(acc * 10 + d <= i64::MAX) by (nonlinear_arith)
                    requires
                        acc <= (i64::MAX - d) / 10 && 0 <= d <= 9 && acc >= 0,
                ;
                assert(acc * 10 >= 0) by (nonlinear_arith)
                    requires
                        acc >= 0,
                ;
            }
            proof {
                lemma_digits_end_ge(src, (i + 1) as nat);
                assert(digits_end(src, i as nat) == digits_end(src, (i + 1) as nat));
            }
            acc = acc * 10 + d;
            self.advance();
        }
        proof {
            assert(digits_end(src, self@.pos as nat) == self@.pos);
            assert(src.subrange(pos0 as int, self@.pos as int) =~= all);
        }
        Ok(Token::Int(acc))
    }

    /// `<`, `>`, `<=`, `>=`: one token of one or two characters.
    fn read_ineq(&mut self, token: Token) -> (r: Result<Token, LexerError>)
        requires
            old(self)@.pos < old(self)@.src.len(),
            token == Token::LESSTHAN || token == Token::GREATERTHAN,
        ensures
            final(self)@.src == old(self)@.src,
            final(self)@.pos <= final(self)@.src.len(),
            ({
                let src = old(self)@.src;
                let pos = old(self)@.pos;
                let eq = pos + 1 < src.len() && src[pos as int + 1] == '=';
                let less = token == Token::LESSTHAN;
                r matches Ok(t) && t@ == (if less && eq {
                    TokenV::LESSTHANEQ
                } else if less {
                    TokenV::LESSTHAN
                } else if eq {
                    TokenV::GREATERTHANEQ
                } else {
                    TokenV::GREATERTHAN
                }) && final(self)@.pos == (if eq {
                    pos + 2
                } else {
                    pos + 1
                })
            }),
    {
        let less = matches!(token, Token::LESSTHAN);
        self.advance();
        let mut eq = false;
        if self.pos < self.src.len() && self.src[self.pos] == '=' {
            self.advance();
            eq = true;
        }
        if less && eq {
            Ok(Token::LESSTHANEQ)
        } else if less {
            Ok(Token::LESSTHAN)
        } else if eq {
            Ok(Token::GREATERTHANEQ)
        } else {
            Ok(Token::GREATERTHAN)
        }
    }

    /// The next token of the stream. Whitespace between tokens is skipped;
    /// the end of the text lexes as `EOF` for ever after.
    #[verifier::rlimit(60)]
    pub fn next_token(&mut self) -> (r: Result<Token, LexerError>)
        requires
            old(self)@.pos <= old(self)@.src.len(),
        ensures
            final(self)@.src == old(self)@.src,
            final(self)@.pos <= final(self)@.src.len(),
            match token_at(old(self)@.src, old(self)@.pos) {
                Some((t, np)) => r matches Ok(tok) && tok@ == t && final(self)@.pos == np,
                None => r is Err,
            },
    {
        let ghost src = self@.src;
        let ghost pos0 = self@.pos;
        while self.pos < self.src.len() && (self.src[self.pos] == ' ' || self.src[self.pos]
            == '\u{c}')
            invariant
                self@.src == src,
                pos0 <= self@.pos <= src.len(),
                token_at(src, pos0) == token_at(src, self@.pos),
            decreases src.len() - self@.pos,
        {
            self.advance();
        }
        if self.pos >= self.src.len() {
            return Ok(Token::EOF);
        }
        let c = self.src[self.pos];
        if c == ';' || c == '~' {
            self.read_comment()
        } else if c == '\r' {
            if self.pos + 1 < self.src.len() {
                let c2 = self.src[self.pos + 1];
                if c2 == '\n' {
                    self.advance();
                    Ok(self.basic_token(Token::NEWLINE))
                } else if c2 == '\t' {
                    self.advance();
                    Ok(self.basic_token(Token::TAB))
                } else {
                    Err(LexerError { message: String::from_str("Unexpected /r character.") })
                }
            } else {
                Err(LexerError { message: String::from_str("Unexpected /r character.") })
            }
        } else if c == '\n' {
            Ok(self.basic_token(Token::NEWLINE))
        } else if c == '\t' {
            Ok(self.basic_token(Token::TAB))
        } else if c == '+' {
            Ok(self.basic_token(Token::PLUS))
        } else if c == '-' {
            Ok(self.basic_token(Token::MINUS))
        } else if c == '_' {
            Ok(self.basic_token(Token::UNDERSCORE))
        } else if c == '(' {
            Ok(self.basic_token(Token::LPAREN))
        } else if c == ')' {
            Ok(self.basic_token(Token::RPAREN))
        } else if c == '[' {
            Ok(self.basic_token(Token::LSQBRACK))
        } else if c == ']' {
            Ok(self.basic_token(Token::RSQBRACK))
        } else if c == '/' {
            Ok(self.basic_token(Token::FSLASH))
        } else if c == ':' {
            Ok(self.basic_token(Token::COLON))
        } else if c == '{' {
            Ok(self.basic_token(Token::LCURL))
        } else if c == '}' {
            Ok(self.basic_token(Token::RCURL))
        } else if c == '*' {
            Ok(self.basic_token(Token::ASTERISK))
        } else if c == '=' {
            Ok(self.basic_token(Token::EQUALS))
        } else if c == ',' {
            Ok(self.basic_token(Token::COMMA))
        } else if c == '<' {
            self.read_ineq(Token::LESSTHAN)
        } else if c == '>' {
            self.read_ineq(Token::GREATERTHAN)
        } else if c == '!' {
            Ok(self.basic_token(Token::EXCLAMATION))
        } else if c == '.' {
            Ok(self.basic_token(Token::PERIOD))
        } else if c == '"' {
            self.read_string()
        } else if c == '\'' {
            self.read_char()
        } else if (c >= 'a' && c <= 'z') || (c >= 'A' && c <= 'Z') {
            self.read_ident(false)
        } else if c >= '0' && c <= '9' {
            if c == '0' && self.pos + 1 < self.src.len() && self.src[self.pos + 1] == 'x' {
                self.read_hex()
            } else if c == '0' && self.pos + 1 < self.src.len() && self.src[self.pos + 1] == 'b' {
                self.read_binary()
            } else {
                self.read_int()
            }
        } else {
            Err(LexerError { message: String::from_str("Couldn't read character") })
        }
    }

    /// The character after the cursor, without moving it.
    pub fn peek_next_char(&mut self) -> (r: Result<char, LexerError>)
        ensures
            *final(self) == *old(self),
            old(self)@.pos + 1 < old(self)@.src.len() ==> (r matches Ok(c) && c == old(
                self,
            )@.src[old(self)@.pos as int + 1]),
            old(self)@.pos + 1 >= old(self)@.src.len() ==> r is Err,
    {
        if self.pos < self.src.len() && self.pos + 1 < self.src.len() {
            Ok(self.src[self.pos + 1])
        } else {
            Err(LexerError { message: String::from_str("Expected character but got none") })
        }
    }

    /// The next token, with the cursor left where it was.
    pub fn peek_next_token(&mut self) -> (r: Result<Token, LexerError>)
        requires
            old(self)@.pos <= old(self)@.src.len(),
        ensures
            final(self)@ == old(self)@,
            match token_at(old(self)@.src, old(self)@.pos) {
                Some((t, np)) => r matches Ok(tok) && tok@ == t,
                None => r is Err,
            },
    {
        let current_pos: usize = self.pos;
        let token = self.next_token();
        self.pos = current_pos;
        token
    }
}


} // verus!
