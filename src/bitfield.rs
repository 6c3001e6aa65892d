//! Bitfields of a 32-bit instruction word, and the operand fields read from them.

use vstd::arithmetic::div_mod::lemma_small_mod;
use vstd::arithmetic::power2::{lemma2_to64, pow2};
use vstd::bits::{
    lemma_u32_low_bits_mask_is_mod, lemma_u32_pow2_no_overflow, lemma_u32_shl_is_mul,
    lemma_u32_shr_is_div, low_bits_mask,
};
use vstd::prelude::*;

verus! {

/// The unsigned value of bits `start..=end` of `w` (bit 0 is the least significant).
pub open spec fn field(w: u32, start: nat, end: nat) -> nat {
    (w as nat / pow2(start)) % pow2((end - start + 1) as nat)
}

/// Bits `start..=end` of `word`, shifted down to bit 0.
pub fn bits(word: u32, start: u32, end: u32) -> (r: u32)
    requires
        start <= end <= 31,
    ensures
        r as nat == field(word, start as nat, end as nat),
{
    let width: u32 = end - start + 1;
    proof {
        lemma_u32_shr_is_div(word, start);
        lemma2_to64();
    }
    if width == 32 {
        assert(pow2(0) == 1 && pow2(32) == 0x1_0000_0000);
        assert(word as nat / 1 == word as nat);
        proof {
            lemma_small_mod(word as nat, 0x1_0000_0000);
        }
        word
    } else {
        proof {
            lemma_u32_pow2_no_overflow(width as nat);
            lemma_u32_shl_is_mul(1, width);
        }
        let mask: u32 = (1u32 << width) - 1;
        proof {
            assert(mask == low_bits_mask(width as nat));
            lemma_u32_low_bits_mask_is_mod(word >> start, width as nat);
            assert(((word >> start) & mask) == (word >> start) % (pow2(width as nat) as u32));
        }
        (word >> start) & mask
    }
}

/// First source register index (bits 15–19).
pub fn src1(word: u32) -> (r: usize)
    ensures
        r as nat == field(word, 15, 19),
        r < 32,
{
    let v = bits(word, 15, 19);
    proof {
        lemma_field_bound(word, 15, 19);
        lemma2_to64();
    }
    v as usize
}

/// Second source register index (bits 20–24).
pub fn src2(word: u32) -> (r: usize)
    ensures
        r as nat == field(word, 20, 24),
        r < 32,
{
    let v = bits(word, 20, 24);
    proof {
        lemma_field_bound(word, 20, 24);
        lemma2_to64();
    }
    v as usize
}

/// Destination register index (bits 7–11).
pub fn rd(word: u32) -> (r: usize)
    ensures
        r as nat == field(word, 7, 11),
        r < 32,
{
    let v = bits(word, 7, 11);
    proof {
        lemma_field_bound(word, 7, 11);
        lemma2_to64();
    }
    v as usize
}

/// The I-type immediate (bits 20–31), zero-extended.
pub fn imm_i(word: u32) -> (r: u32)
    ensures
        r as nat == field(word, 20, 31),
{
    bits(word, 20, 31)
}

/// The U-type immediate (bits 12–31), shifted down to bit 0.
pub fn imm_u(word: u32) -> (r: u32)
    ensures
        r as nat == field(word, 12, 31),
{
    bits(word, 12, 31)
}

/// The low immediate of the S-type format (bits 7–11).
pub fn imm_s(word: u32) -> (r: u32)
    ensures
        r as nat == field(word, 7, 11),
{
    bits(word, 7, 11)
}

/// A field of `end - start + 1` bits is below `2^(end - start + 1)`.
pub proof fn lemma_field_bound(w: u32, start: nat, end: nat)
    requires
        start <= end <= 31,
    ensures
        field(w, start, end) < pow2((end - start + 1) as nat),
{
    vstd::arithmetic::power2::lemma_pow2_pos((end - start + 1) as nat);
    lemma2_to64();
}

/// A field of `n` bits starting at bit `s` is the word shifted right by `s`
/// and masked to its `n` low bits.
pub proof fn lemma_field_mask(w: u32, s: u32, n: u32)
    requires
        1 <= n < 32,
        s + n <= 32,
    ensures
        field(w, s as nat, (s + n - 1) as nat) == (w >> s) & (low_bits_mask(n as nat) as u32),
{
    lemma_u32_shr_is_div(w, s);
    lemma_u32_pow2_no_overflow(n as nat);
    lemma_u32_low_bits_mask_is_mod(w >> s, n as nat);
}

} // verus!
