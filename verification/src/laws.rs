//! Properties of the library that span its operations: what constant
//! arithmetic undoes, what the checks of types keep, and what a write to the
//! evaluator's state gives back on a read.

use vstd::prelude::*;
use vstd::arithmetic::power2::pow2;
use vstd::arithmetic::div_mod::{lemma_fundamental_div_mod, lemma_mod_multiples_vanish};
use crate::types::{TypeId, SymbolId, TypeKind, TypeRegistry, PrimitiveType};
use crate::arith::{wrap, m128, trunc_div, trunc_rem, truncate_bits, as_signed, as_unsigned};
use crate::value::{ConstValue, ConstBinaryOp, binary_spec};
use crate::eval_spec::{cast_int, unary_sem, fit_int, bind_literal, usize_of};
use crate::eval_state::{ConstEvalError, lookup_scopes, define_in, find_entry, set_entry, slot_of};
use crate::intrinsic::{AtomicOrdering, OrderRole, ordering_of, ordering_abi, ordering_valid_for, failure_within};
use crate::checker::tv_chain;
use crate::coercion::{unify_spec, unify_all};
use crate::simd::{align_of_const, indices_of_const, power_of_two};
use crate::bit_intrinsics::{BitCount, bit_count_spec, int_cast_spec};
use crate::ast::UnaryOperator;

verus! {

proof fn lemma_wrap_shift(x: int, j: int)
    ensures
        wrap(x + j * m128()) == wrap(x),
{
    assert(m128() > 0);
    lemma_mod_multiples_vanish(j, x, m128());
    assert(m128() * j + x == x + j * m128()) by (nonlinear_arith);
}

proof fn lemma_wrap_offset(x: int) -> (j: int)
    ensures
        wrap(x) == x + j * m128(),
{
    assert(m128() > 0);
    lemma_fundamental_div_mod(x, m128());
    let q = x / m128();
    let r = x % m128();
    assert(x == m128() * q + r);
    if r <= i128::MAX {
        assert(wrap(x) == x + (-q) * m128()) by (nonlinear_arith)
            requires
                x == m128() * q + r,
                wrap(x) == r,
        ;
        -q
    } else {
        assert(wrap(x) == x + (-q - 1) * m128()) by (nonlinear_arith)
            requires
                x == m128() * q + r,
                wrap(x) == r - m128(),
        ;
        -q - 1
    }
}

/// Wrapping subtraction undoes wrapping addition: `(a + b) - b == a` for
/// every pair of constant integers.
pub proof fn law_add_then_subtract(a: i128, b: i128)
    ensures
        binary_spec(ConstValue::Int(a), ConstBinaryOp::Add, ConstValue::Int(b), false) == Ok::<
            ConstValue,
            crate::arith::ConstArithmeticError,
        >(ConstValue::Int(wrap(a + b) as i128)),
        binary_spec(
            ConstValue::Int(wrap(a + b) as i128),
            ConstBinaryOp::Subtract,
            ConstValue::Int(b),
            false,
        ) == Ok::<ConstValue, crate::arith::ConstArithmeticError>(ConstValue::Int(a)),
{
    crate::arith::lemma_wrap_in_range(a + b);
    let w = wrap(a + b);
    let j = lemma_wrap_offset(a + b);
    assert(w - b == a + j * m128());
    lemma_wrap_shift(a as int, j);
    crate::arith::lemma_wrap_identity(a as int);
}

/// Truncating division and remainder recompose the dividend:
/// `(l / r) * r + l % r == l` whenever the division succeeds.
pub proof fn law_division_recomposes(l: i128, r: i128)
    requires
        r != 0,
        !(l == i128::MIN && r == -1),
    ensures
        trunc_div(l as int, r as int) * r + trunc_rem(l as int, r as int) == l,
{
    let x = l as int;
    let d = r as int;
    if x == 0 {
    } else if x > 0 && d > 0 {
        lemma_fundamental_div_mod(x, d);
        assert((x / d) * d == d * (x / d)) by (nonlinear_arith);
    } else if x < 0 && d < 0 {
        lemma_fundamental_div_mod(-x, -d);
        assert(((-x) / (-d)) * d + (-((-x) % (-d))) == x) by (nonlinear_arith)
            requires
                -x == (-d) * ((-x) / (-d)) + (-x) % (-d),
        ;
        assert((x * -1) == -x && (d * -1) == -d);
    } else if x < 0 {
        lemma_fundamental_div_mod(-x, d);
        assert((((-x) / d) * -1) * d + (((-x) % d) * -1) == x) by (nonlinear_arith)
            requires
                -x == d * ((-x) / d) + (-x) % d,
        ;
        assert((x * -1) == -x);
    } else {
        lemma_fundamental_div_mod(x, -d);
        assert(((x / (-d)) * -1) * d + x % (-d) == x) by (nonlinear_arith)
            requires
                x == (-d) * (x / (-d)) + x % (-d),
        ;
        assert((d * -1) == -d);
    }
}

/// Bitwise not is its own inverse on constant integers.
pub proof fn law_bitwise_not_involution(x: i128)
    ensures
        unary_sem(UnaryOperator::BitwiseNot, ConstValue::Int(x), false) == Ok::<ConstValue, ConstEvalError>(
            ConstValue::Int(!x),
        ),
        unary_sem(UnaryOperator::BitwiseNot, ConstValue::Int(!x), false) == Ok::<ConstValue, ConstEvalError>(
            ConstValue::Int(x),
        ),
{
    assert(!(!x) == x) by (bit_vector);
}

/// Logical not is its own inverse on constant booleans.
pub proof fn law_logical_not_involution(b: bool)
    ensures
        unary_sem(UnaryOperator::LogicalNot, ConstValue::Bool(!b), false) == Ok::<ConstValue, ConstEvalError>(
            ConstValue::Bool(b),
        ),
{
}

/// Negation of a signed constant is its own inverse, `i128::MIN` included.
pub proof fn law_negate_involution(x: i128)
    ensures
        unary_sem(UnaryOperator::Negate, ConstValue::Int(x), false) == Ok::<ConstValue, ConstEvalError>(
            ConstValue::Int(wrap(-(x as int)) as i128),
        ),
        wrap(-(wrap(-(x as int)) as i128 as int)) == x,
{
    crate::arith::lemma_wrap_in_range(-(x as int));
    let y = wrap(-(x as int));
    let j = lemma_wrap_offset(-(x as int));
    assert(-y == x + (-j) * m128()) by (nonlinear_arith)
        requires
            y == -(x as int) + j * m128(),
    ;
    lemma_wrap_shift(x as int, -j);
    crate::arith::lemma_wrap_identity(x as int);
}

/// A cast keeps the low bits; casting again to the same width changes nothing.
pub proof fn law_cast_idempotent(size: u64, v: i128)
    ensures
        cast_int(size, cast_int(size, v)) == cast_int(size, v),
{
    if size == 0 {
        vstd::arithmetic::power2::lemma2_to64();
        assert(truncate_bits(v as int, 0) == 0);
        assert(truncate_bits(0, 0) == 0);
    } else if size < 16 {
        let bits = (8 * size) as nat;
        crate::bit_intrinsics::lemma_truncate_bound(v as int, bits);
        crate::arith::lemma_pow2_127();
        if bits < 127 {
            vstd::arithmetic::power2::lemma_pow2_strictly_increases(bits, 127);
        }
        let u = truncate_bits(v as int, bits);
        assert(0 <= u < pow2(bits));
        assert(u <= i128::MAX);
        lemma_truncate_small(u, bits);
    }
}

proof fn lemma_truncate_small(u: int, bits: nat)
    requires
        1 <= bits < 128,
        0 <= u < pow2(bits),
        u <= i128::MAX,
    ensures
        truncate_bits(u as i128 as int, bits) == u,
{
    vstd::arithmetic::div_mod::lemma_small_mod(u as nat, pow2(bits));
}

/// An integer cast applied twice to the same type gives what one gives.
pub proof fn law_int_cast_idempotent(v: i128, bits: nat, signed: bool)
    requires
        1 <= bits <= 128,
    ensures
        i128::MIN <= int_cast_spec(v, bits, signed) <= i128::MAX,
        int_cast_spec(int_cast_spec(v, bits, signed) as i128, bits, signed) == int_cast_spec(v, bits, signed),
{
    crate::bit_intrinsics::lemma_truncate_bound(v as int, bits);
    crate::arith::lemma_pow2_127();
    let u = truncate_bits(v as int, bits);
    if bits == 128 {
        crate::arith::lemma_bits_roundtrip(as_signed(u));
        assert(as_unsigned(as_signed(u)) == u);
    } else {
        vstd::arithmetic::power2::lemma_pow2_unfold(bits);
        if bits < 127 {
            vstd::arithmetic::power2::lemma_pow2_strictly_increases(bits, 127);
        }
        let w = int_cast_spec(v, bits, signed);
        if signed && u >= pow2((bits - 1) as nat) {
            assert(w == u - pow2(bits));
            let wv = w as i128;
            crate::arith::lemma_bits_roundtrip(w);
            assert(as_unsigned(w) == w + m128());
            vstd::arithmetic::power2::lemma_pow2_adds(bits, (128 - bits) as nat);
            assert(m128() == pow2(bits) * pow2((128 - bits) as nat));
            assert((w + m128()) % (pow2(bits) as int) == u) by {
                assert(w + m128() == u + (pow2((128 - bits) as nat) as int - 1) * pow2(bits)) by (nonlinear_arith)
                    requires
                        w == u - pow2(bits),
                        m128() == pow2(bits) * pow2((128 - bits) as nat),
                ;
                vstd::arithmetic::div_mod::lemma_mod_multiples_vanish(
                    pow2((128 - bits) as nat) as int - 1,
                    u,
                    pow2(bits) as int,
                );
                vstd::arithmetic::div_mod::lemma_small_mod(u as nat, pow2(bits));
                assert((pow2(bits) as int) * (pow2((128 - bits) as nat) as int - 1) + u == u + (pow2(
                    (128 - bits) as nat,
                ) as int - 1) * pow2(bits)) by (nonlinear_arith);
            }
        } else {
            lemma_truncate_small(u, bits);
        }
    }
}

/// Every ordering is written as one number, and that number reads back as it.
pub proof fn law_ordering_roundtrip(o: AtomicOrdering)
    ensures
        ordering_of(ordering_abi(o)) == Some(o),
{
}

/// A relaxed failure ordering suits every success ordering, and a
/// sequentially consistent success ordering admits every failure ordering
/// that is valid for a failure.
pub proof fn law_failure_orderings(s: AtomicOrdering, f: AtomicOrdering)
    ensures
        failure_within(AtomicOrdering::Relaxed, s),
        ordering_valid_for(OrderRole::CasFailure, f) ==> failure_within(f, AtomicOrdering::SeqCst),
        failure_within(f, s) ==> ordering_valid_for(OrderRole::CasFailure, f),
{
}

/// An alignment accepted for a SIMD load or store is a power of two that
/// fits in 32 bits.
pub proof fn law_accepted_alignment(r: Result<u64, ConstEvalError>)
    ensures
        align_of_const(r) matches Some(a) ==> power_of_two(a as nat) && a <= u32::MAX && a > 0,
{
    if let Some(a) = align_of_const(r) {
        if a == 0 {
            assert(!power_of_two(0));
        }
    }
}

/// Accepted lane indices are one per lane, each below the bound.
pub proof fn law_accepted_lane_indices(r: Result<ConstValue, ConstEvalError>, lanes: u16, upper: u32)
    ensures
        indices_of_const(r, lanes, upper) matches Some(ix) ==> ix.len() == lanes && forall|j: int|
            0 <= j < ix.len() ==> ix[j] < upper,
{
    if let Some(ix) = indices_of_const(r, lanes, upper) {
        if let Ok(ConstValue::Array(vs)) = r {
            let s = vs.seq();
            assert forall|j: int| 0 <= j < ix.len() implies ix[j] < upper by {
                assert(s[j] matches ConstValue::Int(x) && 0 <= x < upper);
            }
        }
    }
}

/// Bit counts lie between zero and the width, and leading zeros and the
/// significant bits make up the width.
pub proof fn law_bit_counts_within_width(v: i128, bits: nat)
    requires
        1 <= bits <= 128,
    ensures
        0 <= bit_count_spec(BitCount::PopCount, v, bits) <= bits,
        0 <= bit_count_spec(BitCount::Clz, v, bits) <= bits,
        0 <= bit_count_spec(BitCount::Ctz, v, bits) <= bits,
        bit_count_spec(BitCount::Clz, v, bits) + crate::arith::bit_length(
            truncate_bits(v as int, bits) as nat,
        ) == bits,
{
    crate::bit_intrinsics::lemma_truncate_bound(v as int, bits);
    let u = truncate_bits(v as int, bits) as nat;
    crate::arith::lemma_bit_length_bound(u, bits);
    crate::arith::lemma_popcount_bound(u, bits);
    lemma_trailing_zeros_bound(u, bits);
}

proof fn lemma_trailing_zeros_bound(x: nat, n: nat)
    ensures
        crate::arith::trailing_zeros(x, n) <= n,
    decreases n,
{
    if n > 0 && x % 2 != 1 {
        lemma_trailing_zeros_bound(x / 2, (n - 1) as nat);
    }
}

/// A value fitted to an integer type narrower than 128 bits lies in that
/// type's range, whether it was computed or written as a literal.
pub proof fn law_fitted_values_in_range(p: PrimitiveType, bits: nat, x: i128, neg: bool, mag: u128)
    requires
        p.is_int(),
        1 <= bits < 128,
    ensures
        fit_int(p, bits, x) matches Ok(ConstValue::Int(y)) ==> (if p.is_unsigned_int() {
            0 <= y < pow2(bits)
        } else {
            -pow2((bits - 1) as nat) <= y < pow2((bits - 1) as nat)
        }),
        bind_literal(p, bits, neg, mag) matches Ok(ConstValue::Int(y)) ==> (if p.is_unsigned_int() {
            0 <= y < pow2(bits)
        } else {
            -pow2((bits - 1) as nat) <= y < pow2((bits - 1) as nat)
        }),
{
    crate::bit_intrinsics::lemma_truncate_bound(x as int, bits);
    crate::arith::lemma_pow2_127();
    if bits < 127 {
        vstd::arithmetic::power2::lemma_pow2_strictly_increases(bits, 127);
    }
    vstd::arithmetic::power2::lemma_pow2_unfold(bits);
    vstd::arithmetic::power2::lemma_pow2_strictly_increases((bits - 1) as nat, 127);
}

/// A usize-like constant is the integer constant it was evaluated to.
pub proof fn law_usize_is_the_integer(r: Result<ConstValue, ConstEvalError>)
    ensures
        usize_of(r) matches Ok(v) ==> r == Ok::<ConstValue, ConstEvalError>(ConstValue::Int(v as i128)),
{
}

/// Resolving a type whose inference variables are followed to the end again
/// gives the same type.
pub proof fn law_resolve_idempotent(types: TypeRegistry, tvs: Seq<Option<TypeId>>, t: TypeId)
    requires
        types.wf(),
        !(types.kind(tv_chain(types, tvs, t, tvs.len())) matches TypeKind::TypeVar(v) && v < tvs.len()
            && tvs[v as int] is Some),
    ensures
        tv_chain(types, tvs, tv_chain(types, tvs, t, tvs.len()), tvs.len()) == tv_chain(
            types,
            tvs,
            t,
            tvs.len(),
        ),
{
    let n = tv_chain(types, tvs, t, tvs.len());
    crate::checker::lemma_tv_chain_valid(types, tvs, t, tvs.len());
    lemma_norm_fixed(types, n);
}

proof fn lemma_norm_fixed(types: TypeRegistry, n: TypeId)
    requires
        types.wf(),
        types.valid(n),
        !(types.kind(n) is Alias),
    ensures
        types.norm(n) == n,
{
}

/// Normalising a type twice is normalising it once.
pub proof fn law_norm_idempotent(types: TypeRegistry, t: TypeId)
    requires
        types.wf(),
        types.valid(t),
    ensures
        types.norm(types.norm(t)) == types.norm(t),
{
    types.lemma_norm(t);
    lemma_norm_fixed(types, types.norm(t));
}

/// A binding written into the innermost scope is what a read of that name
/// gives back, and reads of other names are as before.
pub proof fn law_define_then_lookup<V>(scopes: Seq<Seq<(SymbolId, V)>>, name: SymbolId, v: V, other: SymbolId)
    ensures
        lookup_scopes(define_in(scopes, name, v), name) == Some(v),
        other != name ==> lookup_scopes(define_in(scopes, name, v), other) == lookup_scopes(scopes, other),
{
    let d = define_in(scopes, name, v);
    if scopes.len() == 0 {
        assert(find_entry(seq![(name, v)], name) == Some(v));
        assert(seq![(name, v)].drop_first() =~= Seq::<(SymbolId, V)>::empty());
        assert(slot_of(d, name, 1) == Some(0int));
        if other != name {
            assert(find_entry(seq![(name, v)], other) == find_entry(Seq::<(SymbolId, V)>::empty(), other));
            assert(slot_of(d, other, 0) is None);
            assert(slot_of(scopes, other, 0) is None);
        }
    } else {
        let k = scopes.len() - 1;
        crate::eval_state::lemma_set_entry_find(scopes.last(), name, v, other);
        assert(d[k] == set_entry(scopes[k], name, v));
        assert(slot_of(d, name, d.len() as int) == Some(k));
        if other != name {
            lemma_slot_of_unchanged(scopes, d, other, k, scopes.len() as int);
        }
    }
}

proof fn lemma_slot_of_unchanged<V>(
    a: Seq<Seq<(SymbolId, V)>>,
    b: Seq<Seq<(SymbolId, V)>>,
    name: SymbolId,
    k: int,
    n: int,
)
    requires
        a.len() == b.len(),
        0 <= k < a.len(),
        n <= a.len(),
        forall|i: int| 0 <= i < a.len() && i != k ==> b[i] == a[i],
        find_entry(b[k], name) == find_entry(a[k], name),
    ensures
        slot_of(b, name, n) == slot_of(a, name, n),
        slot_of(a, name, n) matches Some(i) ==> find_entry(b[i], name) == find_entry(a[i], name),
    decreases n,
{
    if n > 0 {
        lemma_slot_of_unchanged(a, b, name, k, n - 1);
    }
}


/// Unification only adds bindings: the map it leaves starts with the map it
/// was given.
pub proof fn law_unify_extends_map(
    types: TypeRegistry,
    tvs: Seq<Option<TypeId>>,
    g: TypeId,
    c: TypeId,
    map: Seq<(SymbolId, TypeId)>,
    fuel: nat,
)
    ensures
        map.is_prefix_of(unify_spec(types, tvs, g, c, map, fuel).1),
    decreases fuel, 0int,
{
    let gn = tv_chain(types, tvs, g, tvs.len());
    let cn = tv_chain(types, tvs, c, tvs.len());
    if fuel > 0 {
        let f = (fuel - 1) as nat;
        match (types.kind(gn), types.kind(cn)) {
            (TypeKind::Param(name), _) => {
                crate::simd::lemma_prefix_append(map, seq![(name, c)]);
                assert(map.push((name, c)) =~= map + seq![(name, c)]);
            },
            (TypeKind::Pointer { elem: ge, .. }, TypeKind::Pointer { elem: ce, .. })
            | (TypeKind::VolatilePtr { elem: ge, .. }, TypeKind::VolatilePtr { elem: ce, .. })
            | (TypeKind::Slice { elem: ge, .. }, TypeKind::Slice { elem: ce, .. })
            | (TypeKind::Array { elem: ge, .. }, TypeKind::Array { elem: ce, .. })
            | (TypeKind::ArrayInfer { elem: ge, .. }, TypeKind::ArrayInfer { elem: ce, .. }) => {
                law_unify_extends_map(types, tvs, ge, ce, map, f);
            },
            (TypeKind::Def(_, ga), TypeKind::Def(_, ca))
            | (TypeKind::Enum(_, ga), TypeKind::Enum(_, ca))
            | (TypeKind::TraitObject(_, ga), TypeKind::TraitObject(_, ca)) => {
                lemma_unify_all_extends(types, tvs, ga@, ca@, 0, map, f);
            },
            (
                TypeKind::ClosureInterface { params: gp, ret: gr },
                TypeKind::ClosureInterface { params: cp, ret: cr },
            ) => {
                lemma_unify_all_extends(types, tvs, gp@, cp@, 0, map, f);
                let m = unify_all(types, tvs, gp@, cp@, 0, map, f).1;
                law_unify_extends_map(types, tvs, gr, cr, m, f);
                crate::eval::lemma_prefix_trans(map, m, unify_spec(types, tvs, gr, cr, m, f).1);
            },
            (
                TypeKind::AnonymousState { captures: gc, params: gp, ret: gr },
                TypeKind::AnonymousState { captures: cc, params: cp, ret: cr },
            ) => {
                lemma_unify_all_extends(types, tvs, gc@, cc@, 0, map, f);
                let m1 = unify_all(types, tvs, gc@, cc@, 0, map, f).1;
                lemma_unify_all_extends(types, tvs, gp@, cp@, 0, m1, f);
                let m2 = unify_all(types, tvs, gp@, cp@, 0, m1, f).1;
                law_unify_extends_map(types, tvs, gr, cr, m2, f);
                crate::eval::lemma_prefix_trans(map, m1, m2);
                crate::eval::lemma_prefix_trans(map, m2, unify_spec(types, tvs, gr, cr, m2, f).1);
            },
            _ => {},
        }
    }
    crate::simd::lemma_prefix_append(map, Seq::empty());
    assert(map + Seq::<(SymbolId, TypeId)>::empty() =~= map);
}

proof fn lemma_unify_all_extends(
    types: TypeRegistry,
    tvs: Seq<Option<TypeId>>,
    gs: Seq<TypeId>,
    cs: Seq<TypeId>,
    i: int,
    map: Seq<(SymbolId, TypeId)>,
    fuel: nat,
)
    ensures
        map.is_prefix_of(unify_all(types, tvs, gs, cs, i, map, fuel).1),
    decreases fuel, gs.len() - i,
{
    crate::simd::lemma_prefix_append(map, Seq::empty());
    assert(map + Seq::<(SymbolId, TypeId)>::empty() =~= map);
    if 0 <= i < gs.len() {
        law_unify_extends_map(types, tvs, gs[i], cs[i], map, fuel);
        let m = unify_spec(types, tvs, gs[i], cs[i], map, fuel).1;
        if unify_spec(types, tvs, gs[i], cs[i], map, fuel).0 {
            lemma_unify_all_extends(types, tvs, gs, cs, i + 1, m, fuel);
            crate::eval::lemma_prefix_trans(map, m, unify_all(types, tvs, gs, cs, i + 1, m, fuel).1);
        }
    }
}

/// An argument of exactly the parameter's type is an exact match.
pub proof fn law_match_score_reflexive(checker: crate::checker::ExprChecker, t: TypeId)
    ensures
        checker.match_score(t, t) == Some(0usize),
{
}
} // verus!
