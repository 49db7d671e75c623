//! The values the bit intrinsics compute at compile time: population count,
//! leading and trailing zeros, integer casts and byte swaps, each on the low
//! `bits` bits of a constant integer.

use vstd::prelude::*;
use vstd::arithmetic::power2::{pow2, lemma_pow2_strictly_increases, lemma_pow2_pos};
use crate::arith::{
    truncate_bits, truncate_to_width, popcount, bit_length, trailing_zeros, byte_reverse, sign_extend,
    as_signed, count_ones, bit_len, count_trailing_zeros, reverse_bytes, from_bits, pow2_u128,
    lemma_pow2_127, lemma_bit_length_bound, m128,
};

verus! {

/// The bit-counting intrinsics.
#[derive(Clone, Copy, Debug, PartialEq, Eq, Structural)]
pub enum BitCount {
    PopCount,
    Clz,
    Ctz,
}

/// The count of `k` over the low `bits` bits of `v`.
pub open spec fn bit_count_spec(k: BitCount, v: i128, bits: nat) -> int {
    let u = truncate_bits(v as int, bits) as nat;
    match k {
        BitCount::PopCount => popcount(u, bits) as int,
        BitCount::Clz => bits - bit_length(u),
        BitCount::Ctz => trailing_zeros(u, bits) as int,
    }
}

/// `v` cast to an integer of `bits` bits, signed or not, then widened back.
pub open spec fn int_cast_spec(v: i128, bits: nat, signed: bool) -> int {
    let u = truncate_bits(v as int, bits);
    if signed {
        sign_extend(u, bits)
    } else {
        as_signed(u)
    }
}

/// The low `bits` bits of `v` with their bytes reversed, for the widths that
/// have a byte swap; other widths keep the bits as they are.
pub open spec fn bswap_spec(v: i128, bits: nat) -> int {
    let u = truncate_bits(v as int, bits) as nat;
    if bits == 16 || bits == 32 || bits == 64 || bits == 128 {
        as_signed(byte_reverse(u, bits / 8, 0) as int)
    } else {
        as_signed(u as int)
    }
}

pub proof fn lemma_truncate_bound(v: int, bits: nat)
    requires
        1 <= bits <= 128,
        i128::MIN <= v <= i128::MAX,
    ensures
        0 <= truncate_bits(v, bits) < pow2(bits),
{
    lemma_pow2_127();
    crate::arith::lemma_bits_roundtrip(v);
    lemma_pow2_pos(bits);
    if bits < 128 {
        vstd::arithmetic::div_mod::lemma_mod_bound(
            crate::arith::as_unsigned(v),
            pow2(bits) as int,
        );
    }
}

/// `@popCount`, `@clz` and `@ctz` on the low `bits` bits of `v`.
pub fn eval_bit_count(k: BitCount, v: i128, bits: u32) -> (r: i128)
    requires
        1 <= bits <= 128,
    ensures
        r == bit_count_spec(k, v, bits as nat),
        0 <= r <= bits,
{
    let u = truncate_to_width(v, bits as u64);
    proof {
        lemma_truncate_bound(v as int, bits as nat);
        lemma_bit_length_bound(u as nat, bits as nat);
        crate::arith::lemma_popcount_bound(u as nat, bits as nat);
    }
    match k {
        BitCount::PopCount => count_ones(u, bits) as i128,
        BitCount::Clz => (bits - bit_len(u)) as i128,
        BitCount::Ctz => count_trailing_zeros(u, bits) as i128,
    }
}

/// `@intCast` to an integer of `bits` bits.
pub fn eval_int_cast_value(v: i128, bits: u32, signed: bool) -> (r: i128)
    requires
        1 <= bits <= 128,
    ensures
        r == int_cast_spec(v, bits as nat, signed),
{
    let u = truncate_to_width(v, bits as u64);
    proof {
        lemma_truncate_bound(v as int, bits as nat);
        lemma_pow2_127();
    }
    if signed && bits < 128 {
        let half = pow2_u128(bits - 1);
        proof {
            vstd::arithmetic::power2::lemma_pow2_unfold(bits as nat);
            if bits < 127 {
                lemma_pow2_strictly_increases(bits as nat, 127);
            }
        }
        if u >= half {
            let full = pow2_u128(bits);
            let d = full - u;
            return 0i128 - (d as i128);
        }
        return u as i128;
    }
    from_bits(u)
}

/// `@bswap` on an integer of `bits` bits.
pub fn eval_bswap_value(v: i128, bits: u32) -> (r: i128)
    requires
        1 <= bits <= 128,
    ensures
        r == bswap_spec(v, bits as nat),
{
    let u = truncate_to_width(v, bits as u64);
    proof {
        lemma_truncate_bound(v as int, bits as nat);
    }
    if bits == 16 || bits == 32 || bits == 64 || bits == 128 {
        from_bits(reverse_bytes(u, bits / 8))
    } else {
        from_bits(u)
    }
}

} // verus!
