//! Bit fields as numbers.

use vstd::arithmetic::power2::pow2;
use vstd::prelude::*;

verus! {

/// `len` bits from bit `pos` on.
pub open spec fn field_of(word: int, pos: nat, len: nat) -> int {
    word / pow2(pos) as int % pow2(len) as int
}

pub proof fn lemma_field_of_u64(word: u64, pos: u64, len: u64)
    requires
        pos < 64,
        len < 64,
    ensures
        (word >> pos) & ((1u64 << len) - 1) as u64 == field_of(word as int, pos as nat, len as nat),
        0 <= field_of(word as int, pos as nat, len as nat),
{
    vstd::bits::lemma_u64_shr_is_div(word, pos);
    vstd::bits::lemma_u64_pow2_no_overflow(len as nat);
    vstd::bits::lemma_u64_shl_is_mul(1, len);
    vstd::bits::lemma_u64_low_bits_mask_is_mod(word >> pos, len as nat);
    vstd::arithmetic::power2::lemma_pow2_pos(pos as nat);
}

pub proof fn lemma_field_of_u32(word: u32, pos: u64, len: u64)
    requires
        pos < 32,
        len < 32,
    ensures
        (word >> pos) & ((1u32 << len) - 1) as u32 == field_of(word as int, pos as nat, len as nat),
{
    vstd::bits::lemma_u32_shr_is_div(word, pos as u32);
    vstd::bits::lemma_u32_pow2_no_overflow(len as nat);
    vstd::bits::lemma_u32_shl_is_mul(1, len as u32);
    vstd::bits::lemma_u32_low_bits_mask_is_mod(word >> pos, len as nat);
    vstd::arithmetic::power2::lemma_pow2_pos(pos as nat);
}

} // verus!
