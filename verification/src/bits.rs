//! Bit-field extraction from 16-bit words, addressed from either end.

use vstd::prelude::*;
use vstd::arithmetic::power2::{pow2, lemma2_to64};
use vstd::bits::{low_bits_mask, lemma_u16_shr_is_div, lemma_u16_low_bits_mask_is_mod, lemma_u16_shl_is_mul};

verus! {

/// The value of the bit range `[lo .. lo+width-1]` (least-significant-bit
/// numbering) of `number`, right-aligned.
pub open spec fn bit_range(number: u16, lo: nat, width: nat) -> nat {
    (number as nat / pow2(lo)) % pow2(width)
}

/// Extracts the contiguous bit range between `idx1` and `idx2` (inclusive,
/// in either order), where bit 0 is the least significant bit.
pub fn get_bits_lsb(number: u16, idx1: u8, idx2: u8) -> (r: u16)
    requires
        idx1 < 16,
        idx2 < 16,
    ensures
        r as nat == bit_range(
            number,
            (if idx1 <= idx2 { idx1 } else { idx2 }) as nat,
            ((if idx1 <= idx2 { idx2 - idx1 } else { idx1 - idx2 }) + 1) as nat,
        ),
{
    let lo: u8 = if idx1 <= idx2 { idx1 } else { idx2 };
    let hi: u8 = if idx1 <= idx2 { idx2 } else { idx1 };
    let width: u8 = hi - lo + 1;

    let shifted: u16 = number >> (lo as u16);
    proof {
        lemma_u16_shr_is_div(number, lo as u16);
    }
    if width >= 16 {
        // The full word: the mask would not fit in 16 bits, and the result
        // is the word itself.
        proof {
            lemma2_to64();
            assert(lo == 0 && width == 16);
            assert(shifted as nat == number as nat / 1);
            assert(number as nat % pow2(16) == number as nat);
        }
        shifted
    } else {
        proof {
            lemma2_to64();
            lemma_u16_shl_is_mul(1u16, width as u16);
        }
        let mask: u16 = (1u16 << (width as u16)) - 1;
        proof {
            assert(mask as nat == low_bits_mask(width as nat));
            lemma_u16_low_bits_mask_is_mod(shifted, width as nat);
        }
        shifted & mask
    }
}

/// Extracts the contiguous bit range between `idx1` and `idx2` (inclusive,
/// in either order), where bit 0 is the most significant bit of the word.
pub fn get_bits_msb(number: u16, idx1: u8, idx2: u8) -> (r: u16)
    requires
        idx1 < 16,
        idx2 < 16,
    ensures
        r as nat == bit_range(
            number,
            (15 - (if idx1 <= idx2 { idx2 } else { idx1 })) as nat,
            ((if idx1 <= idx2 { idx2 - idx1 } else { idx1 - idx2 }) + 1) as nat,
        ),
{
    let msb_low: u8 = if idx1 <= idx2 { idx1 } else { idx2 };
    let msb_high: u8 = if idx1 <= idx2 { idx2 } else { idx1 };
    get_bits_lsb(number, 15 - msb_high, 15 - msb_low)
}

} // verus!
