//! Integer arithmetic of the constant evaluator. Constant integers are `i128`
//! values; narrower integer types are handled by truncating to their width.

use vstd::prelude::*;
use vstd::arithmetic::power2::{pow2, lemma_pow2_pos, lemma_pow2_unfold, lemma_pow2_adds, lemma2_to64};
use vstd::arithmetic::div_mod::{
    lemma_fundamental_div_mod_converse_div, lemma_truncate_middle, lemma_mul_mod_noop_left,
    lemma_mod_bound, lemma_fundamental_div_mod,
};

verus! {

/// 2^128.
pub open spec fn m128() -> int {
    0x8000_0000_0000_0000_0000_0000_0000_0000int * 2
}

/// The `u128` bit pattern of an `i128` value.
pub open spec fn as_unsigned(v: int) -> int {
    if v >= 0 {
        v
    } else {
        v + m128()
    }
}

/// The `i128` value of a `u128` bit pattern.
pub open spec fn as_signed(u: int) -> int {
    if u <= i128::MAX {
        u
    } else {
        u - m128()
    }
}

/// Two's-complement wrap-around of an integer into the `i128` range.
pub open spec fn wrap(x: int) -> int {
    as_signed(x % m128())
}

pub proof fn lemma_wrap_in_range(x: int)
    ensures
        i128::MIN <= wrap(x) <= i128::MAX,
{
}

pub proof fn lemma_wrap_small(x: int)
    requires
        -m128() <= x < m128(),
    ensures
        wrap(x) == (if x > i128::MAX {
            x - m128()
        } else if x < i128::MIN {
            x + m128()
        } else {
            x
        }),
{
    if x < 0 {
        assert((x + m128()) % m128() == x % m128()) by {
            vstd::arithmetic::div_mod::lemma_mod_add_multiples_vanish(x, m128());
        }
        vstd::arithmetic::div_mod::lemma_small_mod((x + m128()) as nat, m128() as nat);
    } else {
        vstd::arithmetic::div_mod::lemma_small_mod(x as nat, m128() as nat);
    }
}

pub proof fn lemma_wrap_identity(v: int)
    requires
        i128::MIN <= v <= i128::MAX,
    ensures
        wrap(v) == v,
{
    lemma_wrap_small(v);
}

/// Reinterprets the bits of `v` as unsigned.
pub fn to_bits(v: i128) -> (u: u128)
    ensures
        u == as_unsigned(v as int),
{
    if v >= 0 {
        v as u128
    } else {
        let w = (v + i128::MAX) + 1;
        (w as u128) + 0x8000_0000_0000_0000_0000_0000_0000_0000u128
    }
}

/// Reinterprets the bits of `u` as signed.
pub fn from_bits(u: u128) -> (v: i128)
    ensures
        v == as_signed(u as int),
{
    if u <= 0x7fff_ffff_ffff_ffff_ffff_ffff_ffff_ffffu128 {
        u as i128
    } else {
        let w = (u - 0x8000_0000_0000_0000_0000_0000_0000_0000u128) as i128;
        (w - i128::MAX) - 1
    }
}

pub proof fn lemma_bits_roundtrip(v: int)
    requires
        i128::MIN <= v <= i128::MAX,
    ensures
        as_signed(as_unsigned(v)) == v,
        0 <= as_unsigned(v) < m128(),
        as_unsigned(v) == v % m128(),
{
    if v < 0 {
        vstd::arithmetic::div_mod::lemma_mod_add_multiples_vanish(v, m128());
        vstd::arithmetic::div_mod::lemma_small_mod((v + m128()) as nat, m128() as nat);
    } else {
        vstd::arithmetic::div_mod::lemma_small_mod(v as nat, m128() as nat);
    }
}

/// 2^n as a `u128`.
pub fn pow2_u128(n: u32) -> (r: u128)
    requires
        n < 128,
    ensures
        r == pow2(n as nat),
{
    let mut r: u128 = 1;
    let mut i: u32 = 0;
    proof {
        vstd::arithmetic::power2::lemma2_to64();
    }
    while i < n
        invariant
            i <= n < 128,
            r == pow2(i as nat),
        decreases n - i,
    {
        proof {
            lemma_pow2_unfold((i + 1) as nat);
            lemma_pow2_strictly_increases_to(i as nat + 1, 127);
        }
        r = r * 2;
        i = i + 1;
    }
    r
}

pub proof fn lemma_pow2_strictly_increases_to(a: nat, b: nat)
    requires
        a <= b,
        b <= 127,
    ensures
        pow2(a) <= pow2(b),
        pow2(127) == 0x8000_0000_0000_0000_0000_0000_0000_0000,
{
    if a < b {
        vstd::arithmetic::power2::lemma_pow2_strictly_increases(a, b);
    }
    lemma_pow2_127();
}

pub proof fn lemma_pow2_127()
    ensures
        pow2(127) == 0x8000_0000_0000_0000_0000_0000_0000_0000,
        pow2(128) == m128(),
        pow2(64) == 0x1_0000_0000_0000_0000,
{
    lemma2_to64();
    vstd::arithmetic::power2::lemma2_to64_rest();
    lemma_pow2_adds(64, 63);
    lemma_pow2_adds(64, 64);
    assert(pow2(64) == 0x1_0000_0000_0000_0000);
    assert(pow2(63) == 0x8000_0000_0000_0000);
    assert(pow2(127) == pow2(64) * pow2(63));
    assert(0x1_0000_0000_0000_0000int * 0x8000_0000_0000_0000int
        == 0x8000_0000_0000_0000_0000_0000_0000_0000int) by (nonlinear_arith);
}

/// Wrapping addition.
pub fn int_add(l: i128, r: i128) -> (v: i128)
    ensures
        v == wrap(l + r),
{
    proof {
        lemma_wrap_small(l + r);
    }
    l.wrapping_add(r)
}

/// Wrapping subtraction.
pub fn int_sub(l: i128, r: i128) -> (v: i128)
    ensures
        v == wrap(l - r),
{
    proof {
        lemma_wrap_small(l - r);
    }
    l.wrapping_sub(r)
}

/// Wrapping multiplication.
pub fn int_mul(l: i128, r: i128) -> (v: i128)
    ensures
        v == wrap(l * r),
{
    l.wrapping_mul(r)
}

/// Wrapping negation.
pub fn int_neg(v: i128) -> (r: i128)
    ensures
        r == wrap(-v),
{
    int_sub(0, v)
}

/// Division truncating toward zero, as Rust's `/` on integers.
pub open spec fn trunc_div(x: int, d: int) -> int {
    if x == 0 {
        0
    } else if x > 0 && d > 0 {
        x / d
    } else if x < 0 && d < 0 {
        (x * -1) / (d * -1)
    } else if x < 0 {
        ((x * -1) / d) * -1
    } else {
        (x / (d * -1)) * -1
    }
}

/// Remainder taking the sign of the dividend, as Rust's `%` on integers.
pub open spec fn trunc_rem(x: int, d: int) -> int {
    if x == 0 {
        0
    } else if x > 0 && d > 0 {
        x % d
    } else if x < 0 && d < 0 {
        ((x * -1) % (d * -1)) * -1
    } else if x < 0 {
        ((x * -1) % d) * -1
    } else {
        x % (d * -1)
    }
}

#[derive(Clone, Copy, Debug, PartialEq, Eq, Structural)]
pub enum ConstArithmeticError {
    DivisionByZero,
    ModuloByZero,
    DivisionOverflow,
    ModuloOverflow,
    NegativeShift,
    ShiftTooLarge,
    UnsupportedIntegerOperator,
    UnsupportedBoolOperator,
    UnsupportedEnumOperator,
    TypeMismatch,
}

/// Integer division: an error for a zero divisor and for `i128::MIN / -1`.
pub fn eval_const_int_division(lhs: i128, rhs: i128) -> (r: Result<i128, ConstArithmeticError>)
    ensures
        rhs == 0 ==> r == Err::<i128, ConstArithmeticError>(ConstArithmeticError::DivisionByZero),
        rhs != 0 && lhs == i128::MIN && rhs == -1 ==> r == Err::<i128, ConstArithmeticError>(
            ConstArithmeticError::DivisionOverflow,
        ),
        rhs != 0 && !(lhs == i128::MIN && rhs == -1) ==> r == Ok::<i128, ConstArithmeticError>(
            trunc_div(lhs as int, rhs as int) as i128,
        ) && i128::MIN <= trunc_div(lhs as int, rhs as int) <= i128::MAX,
{
    if rhs == 0 {
        return Err(ConstArithmeticError::DivisionByZero);
    }
    match lhs.checked_div(rhs) {
        Some(q) => {
            proof {
                lemma_trunc_div_range(lhs as int, rhs as int);
            }
            Ok(q)
        },
        None => {
            proof {
                lemma_trunc_div_range(lhs as int, rhs as int);
            }
            Err(ConstArithmeticError::DivisionOverflow)
        },
    }
}

proof fn lemma_trunc_div_range(x: int, d: int)
    requires
        i128::MIN <= x <= i128::MAX,
        i128::MIN <= d <= i128::MAX,
        d != 0,
    ensures
        !(x == i128::MIN && d == -1) ==> i128::MIN <= trunc_div(x, d) <= i128::MAX,
        (x == i128::MIN && d == -1) ==> trunc_div(x, d) > i128::MAX,
{
    if x > 0 && d > 0 {
        vstd::arithmetic::div_mod::lemma_div_is_ordered_by_denominator(x, 1, d);
        vstd::arithmetic::div_mod::lemma_div_pos_is_pos(x, d);
    } else if x < 0 && d < 0 {
        vstd::arithmetic::div_mod::lemma_div_pos_is_pos(-x, -d);
        if d == -1 {
            vstd::arithmetic::div_mod::lemma_div_basics(-x);
        } else {
            vstd::arithmetic::div_mod::lemma_div_is_ordered_by_denominator(-x, 2, -d);
            assert((-x) / 2 <= 0x4000_0000_0000_0000_0000_0000_0000_0000);
        }
    } else if x < 0 {
        vstd::arithmetic::div_mod::lemma_div_pos_is_pos(-x, d);
        vstd::arithmetic::div_mod::lemma_div_is_ordered_by_denominator(-x, 1, d);
    } else if x > 0 {
        vstd::arithmetic::div_mod::lemma_div_pos_is_pos(x, -d);
        vstd::arithmetic::div_mod::lemma_div_is_ordered_by_denominator(x, 1, -d);
    }
}

/// Integer remainder: an error for a zero divisor and for `i128::MIN % -1`.
pub fn eval_const_int_modulo(lhs: i128, rhs: i128) -> (r: Result<i128, ConstArithmeticError>)
    ensures
        rhs == 0 ==> r == Err::<i128, ConstArithmeticError>(ConstArithmeticError::ModuloByZero),
        rhs != 0 && lhs == i128::MIN && rhs == -1 ==> r == Err::<i128, ConstArithmeticError>(
            ConstArithmeticError::ModuloOverflow,
        ),
        rhs != 0 && !(lhs == i128::MIN && rhs == -1) ==> r == Ok::<i128, ConstArithmeticError>(
            trunc_rem(lhs as int, rhs as int) as i128,
        ),
{
    if rhs == 0 {
        return Err(ConstArithmeticError::ModuloByZero);
    }
    match lhs.checked_rem(rhs) {
        Some(q) => Ok(q),
        None => Err(ConstArithmeticError::ModuloOverflow),
    }
}

/// `l` shifted left by `n` bits, bits above the 128th dropped.
pub open spec fn shl_spec(l: int, n: nat) -> int {
    wrap(l * pow2(n))
}

/// Arithmetic right shift: division by 2^n rounding toward negative infinity.
pub open spec fn sar_spec(l: int, n: nat) -> int {
    l / (pow2(n) as int)
}

/// Logical right shift of the 128-bit pattern of `l`.
pub open spec fn shr_spec(l: int, n: nat) -> int {
    as_signed(as_unsigned(l) / (pow2(n) as int))
}

/// The value of a shift, or the error for an out-of-range amount.
pub open spec fn shift_spec(lhs: int, rhs: int, is_left: bool, unsigned_lhs: bool) -> Result<
    int,
    ConstArithmeticError,
> {
    if rhs < 0 {
        Err(ConstArithmeticError::NegativeShift)
    } else if rhs >= 128 {
        Err(ConstArithmeticError::ShiftTooLarge)
    } else if is_left {
        Ok(shl_spec(lhs, rhs as nat))
    } else if unsigned_lhs {
        Ok(shr_spec(lhs, rhs as nat))
    } else {
        Ok(sar_spec(lhs, rhs as nat))
    }
}

fn shift_left(l: i128, n: u32) -> (v: i128)
    requires
        n < 128,
    ensures
        v == shl_spec(l as int, n as nat),
{
    let u = to_bits(l);
    proof {
        lemma_bits_roundtrip(l as int);
        lemma_pow2_pos(n as nat);
    }
    if n == 0 {
        proof {
            assert(pow2(0) == 1) by {
                lemma2_to64();
            }
            lemma_wrap_identity(l as int);
        }
        return l;
    }
    let p = pow2_u128(n);
    let m = pow2_u128(128 - n);
    proof {
        lemma_pow2_adds(n as nat, (128 - n) as nat);
        lemma_pow2_127();
        lemma_pow2_pos((128 - n) as nat);
        lemma_mod_bound(u as int, m as int);
        vstd::arithmetic::mul::lemma_mul_strict_inequality(u as int % m as int, m as int, p as int);
        lemma_truncate_middle(u as int, p as int, m as int);
        lemma_mul_mod_noop_left(l as int, p as int, m128());
        vstd::arithmetic::mul::lemma_mul_is_commutative(p as int, m as int);
        vstd::arithmetic::mul::lemma_mul_is_commutative(p as int, u as int);
        vstd::arithmetic::mul::lemma_mul_is_commutative(p as int, (u as int) % (m as int));
    }
    let t = (u % m) * p;
    from_bits(t)
}

fn shift_right_arith(l: i128, n: u32) -> (v: i128)
    requires
        n < 128,
    ensures
        v == sar_spec(l as int, n as nat),
{
    let p = pow2_u128(n);
    proof {
        lemma_pow2_pos(n as nat);
        lemma_pow2_strictly_increases_to(n as nat, 127);
    }
    if l >= 0 {
        let q = (l as u128) / p;
        proof {
            vstd::arithmetic::div_mod::lemma_div_is_ordered_by_denominator(l as int, 1, p as int);
            vstd::arithmetic::div_mod::lemma_div_pos_is_pos(l as int, p as int);
        }
        q as i128
    } else {
        let a = (-(l + 1)) as u128;
        let q = a / p;
        proof {
            vstd::arithmetic::div_mod::lemma_div_is_ordered_by_denominator(a as int, 1, p as int);
            vstd::arithmetic::div_mod::lemma_div_pos_is_pos(a as int, p as int);
            lemma_fundamental_div_mod(a as int, p as int);
            lemma_mod_bound(a as int, p as int);
            let rem = (a as int) % (p as int);
            assert(l as int == (p as int) * (-(q as int) - 1) + ((p as int) - rem - 1)) by (
            nonlinear_arith)
                requires
                    a as int == (p as int) * (q as int) + rem,
                    l as int == -(a as int) - 1,
            ;
            lemma_fundamental_div_mod_converse_div(
                l as int,
                p as int,
                -(q as int) - 1,
                (p as int) - rem - 1,
            );
        }
        -(q as i128) - 1
    }
}

fn shift_right_logical(l: i128, n: u32) -> (v: i128)
    requires
        n < 128,
    ensures
        v == shr_spec(l as int, n as nat),
{
    let p = pow2_u128(n);
    proof {
        lemma_pow2_pos(n as nat);
        let u = as_unsigned(l as int);
        lemma_bits_roundtrip(l as int);
        vstd::arithmetic::div_mod::lemma_div_is_ordered_by_denominator(u, 1, p as int);
        vstd::arithmetic::div_mod::lemma_div_pos_is_pos(u, p as int);
    }
    from_bits(to_bits(l) / p)
}

/// Shifts in both directions; right shifts are logical when the left operand
/// has an unsigned type.
pub fn eval_const_int_shift(lhs: i128, rhs: i128, is_left: bool, unsigned_lhs: bool) -> (r: Result<
    i128,
    ConstArithmeticError,
>)
    ensures
        r is Ok <==> shift_spec(lhs as int, rhs as int, is_left, unsigned_lhs) is Ok,
        r matches Ok(v) ==> shift_spec(lhs as int, rhs as int, is_left, unsigned_lhs) == Ok::<
            int,
            ConstArithmeticError,
        >(v as int),
        r matches Err(e) ==> shift_spec(lhs as int, rhs as int, is_left, unsigned_lhs) == Err::<
            int,
            ConstArithmeticError,
        >(e),
{
    if rhs < 0 {
        return Err(ConstArithmeticError::NegativeShift);
    }
    if rhs >= 128 {
        return Err(ConstArithmeticError::ShiftTooLarge);
    }
    let n = rhs as u32;
    if is_left {
        Ok(shift_left(lhs, n))
    } else if unsigned_lhs {
        Ok(shift_right_logical(lhs, n))
    } else {
        Ok(shift_right_arith(lhs, n))
    }
}

/// The low `bits` bits of the pattern of `v`, as an unsigned number.
pub open spec fn truncate_bits(v: int, bits: nat) -> int {
    if bits >= 128 {
        as_unsigned(v)
    } else {
        as_unsigned(v) % pow2(bits) as int
    }
}

/// `truncate_bits`, computed.
pub fn truncate_to_width(v: i128, bits: u64) -> (u: u128)
    ensures
        u == truncate_bits(v as int, bits as nat),
        bits < 128 ==> u < pow2(bits as nat),
{
    let b = to_bits(v);
    if bits >= 128 {
        b
    } else {
        let m = pow2_u128(bits as u32);
        proof {
            lemma_pow2_pos(bits as nat);
            lemma_mod_bound(b as int, m as int);
        }
        b % m
    }
}

/// Sign extension of a `bits`-wide pattern `u` to 128 bits.
pub open spec fn sign_extend(u: int, bits: nat) -> int {
    if 0 < bits < 128 && u >= pow2((bits - 1) as nat) {
        u - pow2(bits)
    } else {
        as_signed(u)
    }
}

/// Number of one bits among the low `n` bits of `x`.
pub open spec fn popcount(x: nat, n: nat) -> nat
    decreases n,
{
    if n == 0 {
        0
    } else {
        (x % 2) + popcount(x / 2, (n - 1) as nat)
    }
}

/// Number of bits needed to write `x`.
pub open spec fn bit_length(x: nat) -> nat
    decreases x,
{
    if x == 0 {
        0
    } else {
        1 + bit_length(x / 2)
    }
}

/// Number of zero bits below the lowest one bit, counting at most `n` bits.
pub open spec fn trailing_zeros(x: nat, n: nat) -> nat
    decreases n,
{
    if n == 0 || x % 2 == 1 {
        0
    } else {
        1 + trailing_zeros(x / 2, (n - 1) as nat)
    }
}

/// The low `n` bytes of `x` in reverse order, appended below `acc`.
pub open spec fn byte_reverse(x: nat, n: nat, acc: nat) -> nat
    decreases n,
{
    if n == 0 {
        acc
    } else {
        byte_reverse(x / 256, (n - 1) as nat, acc * 256 + x % 256)
    }
}

pub fn count_ones(x: u128, bits: u32) -> (r: u32)
    requires
        bits <= 128,
    ensures
        r == popcount(x as nat, bits as nat),
{
    let mut cur = x;
    let mut count: u32 = 0;
    let mut i: u32 = 0;
    while i < bits
        invariant
            i <= bits <= 128,
            count <= i,
            count + popcount(cur as nat, (bits - i) as nat) == popcount(x as nat, bits as nat),
        decreases bits - i,
    {
        count = count + (cur % 2) as u32;
        cur = cur / 2;
        i = i + 1;
    }
    count
}

pub proof fn lemma_bit_length_bound(x: nat, n: nat)
    requires
        x < pow2(n),
    ensures
        bit_length(x) <= n,
    decreases n,
{
    if x > 0 {
        if n == 0 {
            assert(pow2(0) == 1) by {
                lemma2_to64();
            }
        } else {
            lemma_pow2_unfold(n);
            lemma_bit_length_bound(x / 2, (n - 1) as nat);
        }
    }
}

pub fn bit_len(x: u128) -> (r: u32)
    ensures
        r == bit_length(x as nat),
        r <= 128,
{
    proof {
        lemma_pow2_127();
        lemma_bit_length_bound(x as nat, 128);
    }
    let mut cur = x;
    let mut len: u32 = 0;
    while cur > 0
        invariant
            len + bit_length(cur as nat) == bit_length(x as nat),
            bit_length(x as nat) <= 128,
        decreases cur,
    {
        len = len + 1;
        cur = cur / 2;
    }
    len
}

pub fn count_trailing_zeros(x: u128, bits: u32) -> (r: u32)
    requires
        bits <= 128,
    ensures
        r == trailing_zeros(x as nat, bits as nat),
        r <= bits,
{
    let mut cur = x;
    let mut i: u32 = 0;
    while i < bits && cur % 2 == 0
        invariant
            i <= bits <= 128,
            i + trailing_zeros(cur as nat, (bits - i) as nat) == trailing_zeros(
                x as nat,
                bits as nat,
            ),
        decreases bits - i,
    {
        cur = cur / 2;
        i = i + 1;
    }
    i
}

pub fn reverse_bytes(x: u128, nbytes: u32) -> (r: u128)
    requires
        nbytes <= 16,
    ensures
        r == byte_reverse(x as nat, nbytes as nat, 0),
{
    let mut cur = x;
    let mut acc: u128 = 0;
    let mut i: u32 = 0;
    proof {
        lemma_pow2_127();
        assert(pow2(0) == 1) by {
            lemma2_to64();
        }
    }
    while i < nbytes
        invariant
            i <= nbytes <= 16,
            acc < pow2(8 * i as nat),
            pow2(128) == m128(),
            byte_reverse(cur as nat, (nbytes - i) as nat, acc as nat) == byte_reverse(
                x as nat,
                nbytes as nat,
                0,
            ),
        decreases nbytes - i,
    {
        proof {
            lemma_pow2_adds(8 * i as nat, 8);
            assert(pow2(8) == 256) by {
                lemma2_to64();
            }
            assert(8 * (i + 1) as nat == 8 * i as nat + 8);
            if i < 15 {
                vstd::arithmetic::power2::lemma_pow2_strictly_increases(
                    (8 * (i + 1)) as nat,
                    128,
                );
            }
            assert(acc * 256 + cur % 256 < pow2(8 * (i + 1) as nat)) by (nonlinear_arith)
                requires
                    acc < pow2(8 * i as nat),
                    cur % 256 < 256,
                    pow2(8 * (i + 1) as nat) == pow2(8 * i as nat) * 256,
            ;
        }
        acc = acc * 256 + cur % 256;
        cur = cur / 256;
        i = i + 1;
    }
    acc
}


pub proof fn lemma_popcount_bound(x: nat, n: nat)
    ensures
        popcount(x, n) <= n,
    decreases n,
{
    if n > 0 {
        lemma_popcount_bound(x / 2, (n - 1) as nat);
    }
}

} // verus!
