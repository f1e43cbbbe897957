//! The instruction header format shared by the processor's decoder and the
//! assembler's encoder.
//!
//! Every instruction starts with a two-byte header:
//! byte 0 holds the 6-bit opcode followed by the top two bits of the 4-bit
//! addressing mode; byte 1 holds the low two mode bits, then two 3-bit
//! register fields.

use vstd::prelude::*;

verus! {

// Opcode values (6 bits).
pub const OP_NOP: u16 = 0;
pub const OP_MOV: u16 = 1;
pub const OP_ADD: u16 = 2;
pub const OP_SUB: u16 = 3;
pub const OP_MUL: u16 = 4;
pub const OP_DIV: u16 = 5;
pub const OP_MOD: u16 = 6;
pub const OP_AND: u16 = 7;
pub const OP_OR: u16 = 8;
pub const OP_XOR: u16 = 9;
pub const OP_NOT: u16 = 10;
pub const OP_JMP: u16 = 11;
pub const OP_JZ: u16 = 12;
pub const OP_JC: u16 = 13;
pub const OP_JO: u16 = 14;
pub const OP_JS: u16 = 15;
pub const OP_JNZ: u16 = 16;
pub const OP_JG: u16 = 17;
pub const OP_JL: u16 = 18;
pub const OP_CMP: u16 = 19;
pub const OP_PUSH: u16 = 20;
pub const OP_POP: u16 = 21;
pub const OP_CALL: u16 = 22;
pub const OP_RET: u16 = 23;
pub const OP_SHL: u16 = 24;
pub const OP_SHR: u16 = 25;
pub const OP_SAR: u16 = 26;
pub const OP_SSP: u16 = 27;
pub const OP_SKIP: u16 = 28;
pub const OP_SYS: u16 = 29;
pub const OP_KRET: u16 = 30;
pub const OP_GSP: u16 = 31;
pub const OP_PNK: u16 = 32;
pub const OP_DBG: u16 = 33;
pub const OP_SHRW: u16 = 34;
pub const OP_GFLS: u16 = 35;
pub const OP_SFLS: u16 = 36;
pub const OP_HLT: u16 = 63;

/// The 16-bit word formed by the two header bytes, high byte first.
pub open spec fn header_word(b0: u8, b1: u8) -> int {
    b0 * 256 + b1
}

/// The 6-bit opcode: the top six bits of the header word.
pub open spec fn opcode_of(word: int) -> int {
    word / 1024
}

/// The 4-bit addressing mode: bits 6..9 (MSB numbering) of the header word.
pub open spec fn mode_of(word: int) -> int {
    (word / 64) % 16
}

/// The 6-bit register field: the low six bits of the header word.
pub open spec fn regfield_of(word: int) -> int {
    word % 64
}

/// The primary register operand: the high three bits of the register field.
pub open spec fn reg_a(regfield: int) -> int {
    (regfield / 8) % 8
}

/// The secondary register operand: the low three bits of the register field.
pub open spec fn reg_b(regfield: int) -> int {
    regfield % 8
}

/// The first header byte: opcode over the two high mode bits.
pub open spec fn encode_b0(op: int, mode: int) -> int {
    op * 4 + mode / 4
}

/// The second header byte: two low mode bits, then the two register fields.
pub open spec fn encode_b1(mode: int, ra: int, rb: int) -> int {
    (mode % 4) * 64 + ra * 8 + rb
}

/// Decoding the two header bytes emitted for (op, mode, ra, rb) recovers
/// exactly those fields.
pub proof fn lemma_header_round_trip(op: int, mode: int, ra: int, rb: int)
    requires
        0 <= op < 64,
        0 <= mode < 16,
        0 <= ra < 8,
        0 <= rb < 8,
    ensures
        0 <= encode_b0(op, mode) < 256,
        0 <= encode_b1(mode, ra, rb) < 256,
        opcode_of(header_word(encode_b0(op, mode) as u8, encode_b1(mode, ra, rb) as u8)) == op,
        mode_of(header_word(encode_b0(op, mode) as u8, encode_b1(mode, ra, rb) as u8)) == mode,
        reg_a(regfield_of(header_word(encode_b0(op, mode) as u8, encode_b1(mode, ra, rb) as u8)))
            == ra,
        reg_b(regfield_of(header_word(encode_b0(op, mode) as u8, encode_b1(mode, ra, rb) as u8)))
            == rb,
{
    let opw = op as u16;
    let mw = mode as u16;
    let raw = ra as u16;
    let rbw = rb as u16;
    let b0 = (opw * 4 + mw / 4) as u16;
    let b1 = (mw % 4 * 64 + raw * 8 + rbw) as u16;
    let w = (b0 * 256 + b1) as u16;
    assert(b0 < 256 && b1 < 256 && w / 1024 == opw && (w / 64) % 16 == mw && ((w % 64) / 8) % 8
        == raw && (w % 64) % 8 == rbw) by (bit_vector)
        requires
            opw < 64 && mw < 16 && raw < 8 && rbw < 8 && b0 == opw * 4 + mw / 4 && b1 == mw % 4
                * 64 + raw * 8 + rbw && w == b0 * 256 + b1,
    ;
    assert(b0 == encode_b0(op, mode) && b1 == encode_b1(mode, ra, rb));
    assert(w == header_word(b0 as u8, b1 as u8));
}

} // verus!
