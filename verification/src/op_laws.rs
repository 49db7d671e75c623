//! Laws of the operators the checker and the evaluator decide on: the
//! bitwise and comparison operators of constant arithmetic, the orderings an
//! atomic access accepts, the casts between numeric types, and the shapes that
//! unification keeps.

use vstd::prelude::*;
use crate::types::{TypeId, SymbolId, TypeKind, TypeRegistry, TY_BOOL};
use crate::value::{ConstValue, ConstBinaryOp, binary_spec};
use crate::intrinsic::{AtomicOrdering, OrderRole, ordering_valid_for, failure_within};
use crate::checker::{ExprChecker, tv_chain, lemma_tv_chain_valid};
use crate::coercion::unify_spec;
use crate::cast::CastVerdict;
use crate::arith::{byte_reverse, truncate_bits, as_unsigned, as_signed, m128, wrap, trunc_div, trunc_rem};
use crate::eval_spec::unary_sem;
use crate::eval_state::ConstEvalError;
use crate::ast::UnaryOperator;
use crate::bit_intrinsics::{bswap_spec, lemma_truncate_bound, BitCount, bit_count_spec, int_cast_spec};
use crate::arith::{popcount, bit_length, trailing_zeros};
use vstd::arithmetic::power2::{pow2, lemma_pow2_unfold, lemma_pow2_pos};
use vstd::arithmetic::div_mod::{
    lemma_fundamental_div_mod, lemma_fundamental_div_mod_converse, lemma_div_denominator,
    lemma_mod_multiples_vanish, lemma_small_mod,
};

verus! {

/// The integer constant a binary operator gives on two integers, if it gives
/// one.
pub open spec fn int_result(a: i128, op: ConstBinaryOp, b: i128) -> Option<i128> {
    match binary_spec(ConstValue::Int(a), op, ConstValue::Int(b), false) {
        Ok(ConstValue::Int(x)) => Some(x),
        _ => None,
    }
}

/// The truth value a comparison gives on two integers, if it gives one.
pub open spec fn bool_result(a: i128, op: ConstBinaryOp, b: i128) -> Option<bool> {
    match binary_spec(ConstValue::Int(a), op, ConstValue::Int(b), false) {
        Ok(ConstValue::Bool(x)) => Some(x),
        _ => None,
    }
}

/// Exclusive or cancels itself: `a ^ a` is zero, zero is its identity, and
/// applying `^ b` twice gives back what it started from.
pub proof fn law_xor_cancels(a: i128, b: i128)
    ensures
        int_result(a, ConstBinaryOp::BitwiseXor, a) == Some(0i128),
        int_result(a, ConstBinaryOp::BitwiseXor, 0) == Some(a),
        int_result(a, ConstBinaryOp::BitwiseXor, b) matches Some(c) && int_result(
            c,
            ConstBinaryOp::BitwiseXor,
            b,
        ) == Some(a),
{
    assert(a ^ a == 0) by (bit_vector);
    assert(a ^ 0 == a) by (bit_vector);
    assert((a ^ b) ^ b == a) by (bit_vector);
}

/// And and or are idempotent, zero absorbs and and is the identity of or,
/// all ones is the identity of and and absorbs or; exclusive or is or
/// without and.
pub proof fn law_and_or(a: i128, b: i128)
    ensures
        int_result(a, ConstBinaryOp::BitwiseAnd, a) == Some(a),
        int_result(a, ConstBinaryOp::BitwiseOr, a) == Some(a),
        int_result(a, ConstBinaryOp::BitwiseAnd, 0) == Some(0i128),
        int_result(a, ConstBinaryOp::BitwiseOr, 0) == Some(a),
        int_result(a, ConstBinaryOp::BitwiseAnd, -1i128) == Some(a),
        int_result(a, ConstBinaryOp::BitwiseOr, -1i128) == Some(-1i128),
        int_result(a, ConstBinaryOp::BitwiseAnd, b) == int_result(b, ConstBinaryOp::BitwiseAnd, a),
        int_result(a, ConstBinaryOp::BitwiseOr, b) == int_result(b, ConstBinaryOp::BitwiseOr, a),
        int_result(a, ConstBinaryOp::BitwiseXor, b) == Some(
            int_result(a, ConstBinaryOp::BitwiseOr, b)->0 & !int_result(a, ConstBinaryOp::BitwiseAnd, b)->0,
        ),
{
    assert(a & a == a) by (bit_vector);
    assert(a | a == a) by (bit_vector);
    assert(a & 0 == 0) by (bit_vector);
    assert(a | 0 == a) by (bit_vector);
    assert(a & -1i128 == a) by (bit_vector);
    assert(a | -1i128 == -1i128) by (bit_vector);
    assert(a & b == b & a) by (bit_vector);
    assert(a | b == b | a) by (bit_vector);
    assert(a ^ b == (a | b) & !(a & b)) by (bit_vector);
}

/// The comparisons of two integers agree with their order: equality is
/// reflexive and the opposite of inequality, `<` is `>` read the other way
/// round, and `<=` is the negation of `>`.
pub proof fn law_comparisons(a: i128, b: i128)
    ensures
        bool_result(a, ConstBinaryOp::Equal, a) == Some(true),
        bool_result(a, ConstBinaryOp::Equal, b) == Some(a == b),
        bool_result(a, ConstBinaryOp::NotEqual, b) == Some(a != b),
        bool_result(a, ConstBinaryOp::LessThan, b) == Some(a < b),
        bool_result(a, ConstBinaryOp::LessThan, b) == bool_result(b, ConstBinaryOp::GreaterThan, a),
        bool_result(a, ConstBinaryOp::LessOrEqual, b) == Some(!(a > b)),
        bool_result(a, ConstBinaryOp::GreaterOrEqual, b) == bool_result(b, ConstBinaryOp::LessOrEqual, a),
        bool_result(a, ConstBinaryOp::LessThan, a) == Some(false),
{
}

/// An ordering with release semantics: it publishes the writes before it.
pub open spec fn releases(o: AtomicOrdering) -> bool {
    o is Release || o is AcqRel || o is SeqCst
}

/// An ordering with acquire semantics: it sees the writes published before.
pub open spec fn acquires(o: AtomicOrdering) -> bool {
    o is Acquire || o is AcqRel || o is SeqCst
}

/// The orderings each access accepts: sequential consistency is accepted
/// everywhere; a load takes every ordering but a pure release one (`Release`,
/// `AcqRel`), a store every ordering but a pure acquire one (`Acquire`,
/// `AcqRel`), a compare-and-swap failure what a load takes; a
/// read-modify-write and a compare-and-swap success take every ordering; a
/// fence takes every ordering that orders something.
pub proof fn law_orderings_per_access(o: AtomicOrdering)
    ensures
        ordering_valid_for(OrderRole::Load, AtomicOrdering::SeqCst),
        ordering_valid_for(OrderRole::Store, AtomicOrdering::SeqCst),
        ordering_valid_for(OrderRole::CasSuccess, AtomicOrdering::SeqCst),
        ordering_valid_for(OrderRole::CasFailure, AtomicOrdering::SeqCst),
        ordering_valid_for(OrderRole::Rmw, AtomicOrdering::SeqCst),
        ordering_valid_for(OrderRole::Fence, AtomicOrdering::SeqCst),
        ordering_valid_for(OrderRole::Load, o) <==> !(releases(o) && !acquires(o)) && !(o is AcqRel),
        ordering_valid_for(OrderRole::Store, o) <==> !(acquires(o) && !releases(o)) && !(o is AcqRel),
        ordering_valid_for(OrderRole::CasFailure, o) == ordering_valid_for(OrderRole::Load, o),
        ordering_valid_for(OrderRole::Rmw, o),
        ordering_valid_for(OrderRole::CasSuccess, o),
        ordering_valid_for(OrderRole::Fence, o) <==> acquires(o) || releases(o),
        ordering_valid_for(OrderRole::Load, AtomicOrdering::Relaxed) && ordering_valid_for(
            OrderRole::Store,
            AtomicOrdering::Relaxed,
        ),
{
}

/// The mutability and length of an array type.
pub open spec fn array_shape(k: TypeKind) -> Option<(bool, u64)> {
    match k {
        TypeKind::Array { is_mut, len, .. } => Some((is_mut, len)),
        _ => None,
    }
}

/// The kind of reference a type is and its mutability: pointers, volatile
/// pointers, slices and arrays of inferred length.
pub open spec fn ref_shape(k: TypeKind) -> Option<(int, bool)> {
    match k {
        TypeKind::Pointer { is_mut, .. } => Some((0, is_mut)),
        TypeKind::VolatilePtr { is_mut, .. } => Some((1, is_mut)),
        TypeKind::Slice { is_mut, .. } => Some((2, is_mut)),
        TypeKind::ArrayInfer { is_mut, .. } => Some((3, is_mut)),
        _ => None,
    }
}

/// Unification keeps shapes: where two array types unify they have the same
/// mutability and the same length; where two pointer, volatile pointer, slice
/// or inferred-length array types of one sort unify they have the same
/// mutability; definitions, enums and trait objects unify only with
/// themselves by definition.
pub proof fn law_unify_keeps_shape(
    types: TypeRegistry,
    tvs: Seq<Option<TypeId>>,
    g: TypeId,
    c: TypeId,
    map: Seq<(SymbolId, TypeId)>,
    fuel: nat,
)
    ensures
        ({
            let gk = types.kind(tv_chain(types, tvs, g, tvs.len()));
            let ck = types.kind(tv_chain(types, tvs, c, tvs.len()));
            &&& unify_spec(types, tvs, g, c, map, fuel).0 && array_shape(gk) is Some && array_shape(ck) is Some
                ==> array_shape(gk) == array_shape(ck)
            &&& unify_spec(types, tvs, g, c, map, fuel).0 && ref_shape(gk) is Some && ref_shape(ck) is Some
                && ref_shape(gk)->0 == ref_shape(ck)->0 ==> ref_shape(gk) == ref_shape(ck)
        }),
{
}

/// Numeric casts are allowed: a value of an integer or floating-point type,
/// or a `bool`, may be cast to any integer or floating-point type, and the
/// check of such a cast reports nothing.
pub proof fn law_numeric_casts_allowed(s: ExprChecker, from: TypeId, to: TypeId)
    requires
        s.wf(),
        s.ctx.types.valid(from),
        s.ctx.types.valid(to),
        (s.ctx.types.kind(s.resolved(from)) matches TypeKind::Primitive(p) && (p.is_int() || p.is_float()))
            || s.resolved(from) == TY_BOOL,
        s.ctx.types.kind(s.resolved(to)) matches TypeKind::Primitive(q) && (q.is_int() || q.is_float()),
    ensures
        s.cast_verdict(from, to) is Allowed,
{
    lemma_tv_chain_valid(s.ctx.types, s.type_vars@, from, s.type_vars@.len());
    lemma_tv_chain_valid(s.ctx.types, s.type_vars@, to, s.type_vars@.len());
    let t = s.resolved(to);
    s.ctx.types.lemma_norm(t);
}

/// `256` to the power `k`: the weight of byte `k`.
pub open spec fn p256(k: nat) -> nat
    decreases k,
{
    if k == 0 {
        1
    } else {
        256 * p256((k - 1) as nat)
    }
}

/// Byte `j` of `x`, counting from the least significant.
pub open spec fn byte_of(x: nat, j: nat) -> nat {
    (x / p256(j)) % 256
}

proof fn lemma_p256_pos(k: nat)
    ensures
        p256(k) > 0,
    decreases k,
{
    if k > 0 {
        lemma_p256_pos((k - 1) as nat);
    }
}

proof fn lemma_p256_add(i: nat, k: nat)
    ensures
        p256(i + k) == p256(i) * p256(k),
    decreases i,
{
    if i > 0 {
        let i1 = (i - 1) as nat;
        lemma_p256_add(i1, k);
        assert((i + k - 1) as nat == i1 + k);
        assert(p256(i + k) == 256 * p256(i1 + k));
        assert(p256(i) == 256 * p256(i1));
        let a = p256(i1);
        let b = p256(k);
        assert(256 * (a * b) == (256 * a) * b) by (nonlinear_arith);
        assert(p256(i1 + k) == a * b);
        assert(p256(i + k) == 256 * (a * b));
        assert(p256(i) * p256(k) == (256 * a) * b);
    } else {
        assert(p256(0) == 1);
        assert(i + k == k);
        assert(p256(i) * p256(k) == p256(k));
    }
}

proof fn lemma_reverse_acc(x: nat, n: nat, acc: nat)
    ensures
        byte_reverse(x, n, acc) == acc * p256(n) + byte_reverse(x, n, 0),
    decreases n,
{
    if n > 0 {
        let m = (n - 1) as nat;
        let a = x % 256;
        lemma_reverse_acc(x / 256, m, acc * 256 + a);
        lemma_reverse_acc(x / 256, m, a);
        let p = p256(m);
        assert(byte_reverse(x, n, acc) == byte_reverse(x / 256, m, acc * 256 + a));
        assert(byte_reverse(x, n, 0) == byte_reverse(x / 256, m, 0 * 256 + a));
        assert(0 * 256 + a == a);
        assert(p256(n) == 256 * p);
        assert((acc * 256 + a) * p == acc * (256 * p) + a * p) by (nonlinear_arith);
        let rest = byte_reverse(x / 256, m, 0);
        assert(byte_reverse(x, n, acc) == (acc * 256 + a) * p + rest);
        assert(byte_reverse(x, n, 0) == a * p + rest);
        assert(acc * p256(n) == acc * (256 * p));
    } else {
        assert(p256(0) == 1);
        assert(byte_reverse(x, 0, acc) == acc);
        assert(byte_reverse(x, 0, 0) == 0);
        assert(acc * 1 == acc);
    }
}

/// The reversal of `n` bytes, its recurrence and its bound.
proof fn lemma_reverse_step(x: nat, n: nat)
    requires
        n > 0,
    ensures
        byte_reverse(x, n, 0) == (x % 256) * p256((n - 1) as nat) + byte_reverse(x / 256, (n - 1) as nat, 0),
{
    lemma_reverse_acc(x / 256, (n - 1) as nat, x % 256);
}

proof fn lemma_reverse_bound(x: nat, n: nat)
    ensures
        byte_reverse(x, n, 0) < p256(n),
    decreases n,
{
    if n > 0 {
        let m = (n - 1) as nat;
        lemma_reverse_step(x, n);
        lemma_reverse_bound(x / 256, m);
        let a = x % 256;
        let p = p256(m);
        let r = byte_reverse(x / 256, m, 0);
        assert(a * p + r < 256 * p) by (nonlinear_arith)
            requires
                a < 256,
                r < p,
        ;
    }
}

/// Byte `j` of the reversal of the `n` low bytes of `x` is byte `n - 1 - j` of
/// `x`.
proof fn lemma_reverse_byte(x: nat, n: nat, j: nat)
    requires
        j < n,
    ensures
        byte_of(byte_reverse(x, n, 0), j) == byte_of(x, (n - 1 - j) as nat),
    decreases n,
{
    let m = (n - 1) as nat;
    let a = x % 256;
    let p = p256(m);
    let r = byte_reverse(x / 256, m, 0);
    lemma_reverse_step(x, n);
    lemma_reverse_bound(x / 256, m);
    lemma_p256_pos(m);
    if j == m {
        lemma_fundamental_div_mod_converse((a * p + r) as int, p as int, a as int, r as int);
        lemma_small_mod(a, 256);
        assert(p256(0) == 1);
        assert(x / 1 == x);
    } else {
        let q = p256(j);
        let k = (m - j) as nat;
        lemma_p256_add(j, k);
        lemma_p256_pos(j);
        lemma_p256_pos(k);
        assert(p == q * p256(k));
        lemma_fundamental_div_mod(r as int, q as int);
        let rq = r / q;
        let rr = r % q;
        assert(a * p + r == q * (a * p256(k) + rq) + rr) by (nonlinear_arith)
            requires
                p == q * p256(k),
                r == q * rq + rr,
        ;
        lemma_fundamental_div_mod_converse((a * p + r) as int, q as int, (a * p256(k) + rq) as int, rr as int);
        let k1 = (k - 1) as nat;
        assert(p256(k) == 256 * p256(k1));
        assert(a * p256(k) + rq == 256 * (a * p256(k1)) + rq) by (nonlinear_arith)
            requires
                p256(k) == 256 * p256(k1),
        ;
        lemma_mod_multiples_vanish((a * p256(k1)) as int, rq as int, 256);
        lemma_reverse_byte(x / 256, m, j);
        assert((m - 1 - j) as nat == k1);
        lemma_p256_pos(k1);
        lemma_div_denominator(x as int, 256, p256(k1) as int);
        assert(p256(k) == 256 * p256(k1));
    }
}

proof fn lemma_p256_16()
    ensures
        p256(16) == m128(),
{
    reveal_with_fuel(p256, 17);
    assert(p256(16) == 0x1_0000_0000_0000_0000_0000_0000_0000_0000nat);
}

/// `@bswap` reverses bytes: on a width of 16, 32, 64 or 128 bits, byte `j` of
/// the result, read as an unsigned pattern of that width, is byte
/// `bits / 8 - 1 - j` of the operand truncated to the width.
pub proof fn law_bswap_reverses_bytes(v: i128, bits: nat, j: nat)
    requires
        bits == 16 || bits == 32 || bits == 64 || bits == 128,
        j < bits / 8,
    ensures
        0 <= as_unsigned(bswap_spec(v, bits)) < p256(bits / 8),
        byte_of(as_unsigned(bswap_spec(v, bits)) as nat, j) == byte_of(
            truncate_bits(v as int, bits) as nat,
            (bits / 8 - 1 - j) as nat,
        ),
{
    let n = bits / 8;
    lemma_truncate_bound(v as int, bits);
    let u = truncate_bits(v as int, bits) as nat;
    let y = byte_reverse(u, n, 0);
    lemma_reverse_bound(u, n);
    lemma_p256_16();
    lemma_p256_add(n, (16 - n) as nat);
    lemma_p256_pos((16 - n) as nat);
    assert(p256(n) <= p256(16)) by (nonlinear_arith)
        requires
            p256(16) == p256(n) * p256((16 - n) as nat),
            p256((16 - n) as nat) > 0,
    ;
    assert(as_unsigned(as_signed(y as int)) == y);
    lemma_reverse_byte(u, n, j);
}

/// The integer a unary operator gives on an integer, if it gives one.
pub open spec fn unary_int(op: UnaryOperator, x: i128) -> Option<i128> {
    match unary_sem(op, ConstValue::Int(x), false) {
        Ok(ConstValue::Int(y)) => Some(y),
        _ => None,
    }
}

/// Addition and multiplication commute; zero is the identity of addition,
/// one of multiplication, zero absorbs multiplication; a value minus itself
/// is zero.
pub proof fn law_ring_identities(a: i128, b: i128)
    ensures
        int_result(a, ConstBinaryOp::Add, b) == int_result(b, ConstBinaryOp::Add, a),
        int_result(a, ConstBinaryOp::Multiply, b) == int_result(b, ConstBinaryOp::Multiply, a),
        int_result(a, ConstBinaryOp::Add, 0) == Some(a),
        int_result(a, ConstBinaryOp::Multiply, 1) == Some(a),
        int_result(a, ConstBinaryOp::Multiply, 0) == Some(0i128),
        int_result(a, ConstBinaryOp::Subtract, a) == Some(0i128),
        int_result(a, ConstBinaryOp::Add, b) is Some && int_result(a, ConstBinaryOp::Subtract, b) is Some,
{
    crate::arith::lemma_wrap_identity(a as int);
    crate::arith::lemma_wrap_identity(0);
    assert(a * b == b * a) by (nonlinear_arith);
}

/// Negation gives the value that adds to zero; bitwise not gives the value
/// that adds to minus one; logical not gives the other truth value.
pub proof fn law_unary_inverses(x: i128, b: bool)
    ensures
        unary_int(UnaryOperator::Negate, x) matches Some(y) && wrap(x + y) == 0,
        unary_int(UnaryOperator::BitwiseNot, x) matches Some(y) && x + y == -1,
        unary_sem(UnaryOperator::LogicalNot, ConstValue::Bool(b), false) matches Ok(ConstValue::Bool(c)) && c != b,
{
    crate::arith::lemma_wrap_in_range(-(x as int));
    let y = wrap(-(x as int));
    assert(!x == -x - 1) by (bit_vector);
    crate::arith::lemma_wrap_identity(0);
    assert(wrap(x + y) == 0) by {
        let q = (-(x as int)) % m128();
        assert(m128() > 0);
        lemma_fundamental_div_mod(-(x as int), m128());
        let k = (-(x as int)) / m128();
        assert(-(x as int) == m128() * k + q);
        assert(y == q || y == q - m128());
        assert(x + y == -(m128() * k) || x + y == -(m128() * k) - m128());
        assert(x + y == m128() * (-k) || x + y == m128() * (-k - 1)) by (nonlinear_arith)
            requires
                x + y == -(m128() * k) || x + y == -(m128() * k) - m128(),
        ;
        if x + y == m128() * (-k) {
            lemma_mod_multiples_vanish(-k, 0, m128());
        } else {
            lemma_mod_multiples_vanish(-k - 1, 0, m128());
        }
    }
}

/// A shift by zero leaves the value as it is, a left shift by one doubles it
/// (wrapping), and a shift by a negative amount or by 128 or more is refused.
pub proof fn law_shifts(x: i128, r: i128, u: bool)
    ensures
        binary_spec(ConstValue::Int(x), ConstBinaryOp::ShiftLeft, ConstValue::Int(0), u) == Ok::<
            ConstValue,
            crate::arith::ConstArithmeticError,
        >(ConstValue::Int(x)),
        binary_spec(ConstValue::Int(x), ConstBinaryOp::ShiftRight, ConstValue::Int(0), u) == Ok::<
            ConstValue,
            crate::arith::ConstArithmeticError,
        >(ConstValue::Int(x)),
        binary_spec(ConstValue::Int(x), ConstBinaryOp::ShiftLeft, ConstValue::Int(1), u) == binary_spec(
            ConstValue::Int(x),
            ConstBinaryOp::Add,
            ConstValue::Int(x),
            u,
        ),
        r < 0 ==> binary_spec(ConstValue::Int(x), ConstBinaryOp::ShiftLeft, ConstValue::Int(r), u) == Err::<
            ConstValue,
            crate::arith::ConstArithmeticError,
        >(crate::arith::ConstArithmeticError::NegativeShift),
        r >= 128 ==> binary_spec(ConstValue::Int(x), ConstBinaryOp::ShiftRight, ConstValue::Int(r), u) == Err::<
            ConstValue,
            crate::arith::ConstArithmeticError,
        >(crate::arith::ConstArithmeticError::ShiftTooLarge),
{
    vstd::arithmetic::power2::lemma2_to64();
    crate::arith::lemma_wrap_identity(x as int);
    crate::arith::lemma_bits_roundtrip(x as int);
    assert(x * 2 == x + x);
}

/// Division truncates toward zero: the remainder is smaller than the divisor
/// in magnitude and is zero or has the sign of the dividend; dividing by one
/// gives the dividend and leaves no remainder.
pub proof fn law_division_truncates(l: i128, r: i128)
    requires
        r != 0,
        !(l == i128::MIN && r == -1),
    ensures
        int_result(l, ConstBinaryOp::Divide, r) == Some(trunc_div(l as int, r as int) as i128),
        int_result(l, ConstBinaryOp::Modulo, r) matches Some(m) && (m == 0 || (m > 0) == (l > 0)) && (if r > 0 {
            -r < m < r
        } else {
            r < m < -r
        }),
        int_result(l, ConstBinaryOp::Divide, 1) == Some(l),
        int_result(l, ConstBinaryOp::Modulo, 1) == Some(0i128),
{
    let x = l as int;
    let d = r as int;
    if x > 0 && d > 0 {
        vstd::arithmetic::div_mod::lemma_mod_bound(x, d);
    } else if x < 0 && d < 0 {
        vstd::arithmetic::div_mod::lemma_mod_bound(-x, -d);
    } else if x < 0 {
        vstd::arithmetic::div_mod::lemma_mod_bound(-x, d);
    } else if x > 0 {
        vstd::arithmetic::div_mod::lemma_mod_bound(x, -d);
    }
    if x > 0 {
        assert(x / 1 == x && x % 1 == 0);
    } else if x < 0 {
        assert((x * -1) / 1 == -x && (x * -1) % 1 == 0);
    }
}

proof fn lemma_trailing_zeros(x: nat, n: nat)
    ensures
        trailing_zeros(x, n) <= n,
        x % pow2(trailing_zeros(x, n)) == 0,
        trailing_zeros(x, n) < n ==> (x / pow2(trailing_zeros(x, n))) % 2 == 1,
    decreases n,
{
    vstd::arithmetic::power2::lemma2_to64();
    if n == 0 || x % 2 == 1 {
        assert(x / 1 == x && x % 1 == 0);
    } else {
        let m = (n - 1) as nat;
        let h = x / 2;
        lemma_trailing_zeros(h, m);
        let t = trailing_zeros(h, m);
        lemma_pow2_unfold(t + 1);
        lemma_pow2_pos(t);
        lemma_fundamental_div_mod(x as int, 2);
        assert(x == 2 * h);
        lemma_fundamental_div_mod(h as int, pow2(t) as int);
        let q = h / pow2(t);
        assert(x == pow2(t + 1) * q) by (nonlinear_arith)
            requires
                x == 2 * h,
                h == pow2(t) * q + 0,
                pow2(t + 1) == 2 * pow2(t),
        ;
        lemma_mod_multiples_vanish(q as int, 0, pow2(t + 1) as int);
        lemma_div_denominator(x as int, 2, pow2(t) as int);
    }
}

/// `@ctz` finds the lowest one bit: the low bits below the count are zero,
/// the bit at the count is one, and a count of the whole width means no bit
/// is set.
pub proof fn law_ctz_finds_lowest_one(v: i128, bits: nat)
    requires
        1 <= bits <= 128,
    ensures
        ({
            let u = truncate_bits(v as int, bits) as nat;
            let t = bit_count_spec(BitCount::Ctz, v, bits) as nat;
            &&& t <= bits
            &&& u % pow2(t) == 0
            &&& t < bits ==> (u / pow2(t)) % 2 == 1
            &&& t == bits ==> u == 0
        }),
{
    lemma_truncate_bound(v as int, bits);
    let u = truncate_bits(v as int, bits) as nat;
    lemma_trailing_zeros(u, bits);
    lemma_pow2_pos(bits);
    if trailing_zeros(u, bits) == bits {
        lemma_fundamental_div_mod(u as int, pow2(bits) as int);
        vstd::arithmetic::div_mod::lemma_div_pos_is_pos(u as int, pow2(bits) as int);
        lemma_small_mod(u, pow2(bits));
    }
}

proof fn lemma_bit_length_range(x: nat)
    requires
        x > 0,
    ensures
        bit_length(x) >= 1,
        pow2((bit_length(x) - 1) as nat) <= x < pow2(bit_length(x)),
    decreases x,
{
    vstd::arithmetic::power2::lemma2_to64();
    let h = x / 2;
    lemma_fundamental_div_mod(x as int, 2);
    if h == 0 {
        assert(x == 1);
        assert(bit_length(0) == 0);
    } else {
        lemma_bit_length_range(h);
        let l = bit_length(h);
        lemma_pow2_unfold(l);
        lemma_pow2_unfold(l + 1);
        assert(bit_length(x) == l + 1);
        assert((l + 1 - 1) as nat == l);
        assert(pow2(l) == 2 * pow2((l - 1) as nat));
    }
}

/// `@clz` counts the zero bits above the highest one: a value of the
/// width with `c` leading zeros lies in `[2^(bits - c - 1), 2^(bits - c))`,
/// and only zero has the whole width as its count.
pub proof fn law_clz_finds_highest_one(v: i128, bits: nat)
    requires
        1 <= bits <= 128,
    ensures
        ({
            let u = truncate_bits(v as int, bits) as nat;
            let c = bit_count_spec(BitCount::Clz, v, bits);
            &&& 0 <= c <= bits
            &&& c == bits <==> u == 0
            &&& u > 0 ==> pow2((bits - c - 1) as nat) <= u < pow2((bits - c) as nat)
        }),
{
    lemma_truncate_bound(v as int, bits);
    let u = truncate_bits(v as int, bits) as nat;
    crate::arith::lemma_bit_length_bound(u, bits);
    if u > 0 {
        lemma_bit_length_range(u);
    }
}

proof fn lemma_popcount_complement(x: nat, n: nat)
    requires
        x < pow2(n),
    ensures
        popcount(x, n) + popcount((pow2(n) - 1 - x) as nat, n) == n,
    decreases n,
{
    vstd::arithmetic::power2::lemma2_to64();
    if n > 0 {
        let m = (n - 1) as nat;
        let y = (pow2(n) - 1 - x) as nat;
        lemma_pow2_unfold(n);
        lemma_pow2_pos(m);
        lemma_fundamental_div_mod(x as int, 2);
        let h = x / 2;
        let b = x % 2;
        assert(h < pow2(m)) by (nonlinear_arith)
            requires
                x == 2 * h + b,
                0 <= b,
                x < 2 * pow2(m),
        ;
        assert(y == 2 * (pow2(m) - 1 - h) + (1 - b)) by (nonlinear_arith)
            requires
                y == 2 * pow2(m) - 1 - x,
                x == 2 * h + b,
        ;
        let hy = (pow2(m) - 1 - h) as nat;
        lemma_fundamental_div_mod_converse(y as int, 2, hy as int, (1 - b) as int);
        lemma_popcount_complement(h, m);
    }
}

/// `@popCount` counts one bits: the counts of a value and of its complement
/// within the width add up to the width, and zero has none.
pub proof fn law_popcount_complement(v: i128, bits: nat)
    requires
        1 <= bits <= 128,
    ensures
        ({
            let u = truncate_bits(v as int, bits) as nat;
            &&& bit_count_spec(BitCount::PopCount, v, bits) + popcount((pow2(bits) - 1 - u) as nat, bits) == bits
            &&& u == 0 ==> bit_count_spec(BitCount::PopCount, v, bits) == 0
        }),
{
    lemma_truncate_bound(v as int, bits);
    let u = truncate_bits(v as int, bits) as nat;
    lemma_popcount_complement(u, bits);
    if u == 0 {
        lemma_popcount_zero(bits);
    }
}

proof fn lemma_popcount_zero(n: nat)
    ensures
        popcount(0, n) == 0,
    decreases n,
{
    if n > 0 {
        lemma_popcount_zero((n - 1) as nat);
    }
}

/// `@intCast` to a width below 128 bits wraps: the result lies in the range
/// of the target integer type and differs from the operand by a multiple of
/// `2^bits`.
pub proof fn law_int_cast_wraps(v: i128, bits: nat, signed: bool)
    requires
        1 <= bits < 128,
    ensures
        ({
            let r = int_cast_spec(v, bits, signed);
            &&& (r - v) % (pow2(bits) as int) == 0
            &&& signed ==> -pow2((bits - 1) as nat) <= r < pow2((bits - 1) as nat)
            &&& !signed ==> 0 <= r < pow2(bits)
        }),
{
    let p = pow2(bits);
    lemma_truncate_bound(v as int, bits);
    crate::arith::lemma_pow2_127();
    vstd::arithmetic::power2::lemma_pow2_adds(bits, (128 - bits) as nat);
    vstd::arithmetic::power2::lemma_pow2_unfold(bits);
    lemma_pow2_pos(bits);
    lemma_pow2_pos((128 - bits) as nat);
    if bits < 127 {
        vstd::arithmetic::power2::lemma_pow2_strictly_increases(bits, 127);
    }
    assert((bits + (128 - bits) as nat) as nat == 128);
    let w = pow2((128 - bits) as nat);
    assert(m128() == p * w);
    let a = as_unsigned(v as int);
    let k: int = if v >= 0 { 0 } else { 1 };
    assert(a == v + k * m128());
    lemma_fundamental_div_mod(a, p as int);
    let q = a / (p as int);
    let u = truncate_bits(v as int, bits);
    assert(a == p * q + u);
    assert(u - v == p * (k * w - q)) by (nonlinear_arith)
        requires
            a == v + k * m128(),
            m128() == p * w,
            a == p * q + u,
    ;
    assert(u <= i128::MAX);
    if signed {
        if u >= pow2((bits - 1) as nat) {
            assert(u - p - v == p * (k * w - q - 1)) by (nonlinear_arith)
                requires
                    u - v == p * (k * w - q),
            ;
            lemma_mod_multiples_vanish(k * w - q - 1, 0, p as int);
        } else {
            lemma_mod_multiples_vanish(k * w - q, 0, p as int);
        }
    } else {
        lemma_mod_multiples_vanish(k * w - q, 0, p as int);
    }
}

/// A compare-and-swap failure ordering is accepted with a success ordering
/// exactly when it is one a load may use, it acquires only where the success
/// ordering acquires, and it is sequentially consistent only where the
/// success ordering is.
pub proof fn law_failure_no_stronger(f: AtomicOrdering, s: AtomicOrdering)
    ensures
        failure_within(f, s) <==> ordering_valid_for(OrderRole::CasFailure, f) && (acquires(f) ==> acquires(s)) && (
        f is SeqCst ==> s is SeqCst),
{
}

} // verus!
