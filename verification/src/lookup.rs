//! The types a method call on a receiver is looked up on, and the key under
//! which a generic instantiation's bound check may be remembered.

use vstd::prelude::*;
use crate::types::{TypeId, DefId, TypeKind, TypeRegistry, children_below, same_kind};
use crate::checker::ExprChecker;
use crate::eval_state::{GenericArg, ConstGeneric};
use crate::typeops::contains_unresolved;
use crate::traits::lemma_prefix_refl;
use crate::subst::lemma_prefix_kind;
use crate::eval::lemma_prefix_trans;

verus! {

/// `x` is the first type of the registry of the structure `k`: the one
/// interning `k` gives.
pub open spec fn first_of(types: TypeRegistry, k: TypeKind, x: TypeId) -> bool {
    &&& types.valid(x)
    &&& same_kind(types.kind(x), k)
    &&& forall|j: int| 0 <= j < x ==> !same_kind(#[trigger] types.kinds()[j], k)
}

/// The id interning `k` gives in `types`.
pub open spec fn interned_id(types: TypeRegistry, k: TypeKind) -> TypeId {
    choose|x: TypeId| first_of(types, k, x)
}

pub proof fn lemma_first_unique(types: TypeRegistry, k: TypeKind, x: TypeId)
    requires
        first_of(types, k, x),
    ensures
        interned_id(types, k) == x,
{
    let y = interned_id(types, k);
    assert(first_of(types, k, y));
    if y < x {
        assert(same_kind(types.kinds()[y as int], k));
    } else if x < y {
        assert(same_kind(types.kinds()[x as int], k));
    }
}

pub proof fn lemma_first_grow(t1: TypeRegistry, t2: TypeRegistry, k: TypeKind, x: TypeId)
    requires
        first_of(t1, k, x),
        t1.kinds().is_prefix_of(t2.kinds()),
    ensures
        first_of(t2, k, x),
        interned_id(t2, k) == x,
{
    lemma_prefix_kind(t1, t2, x);
    assert forall|j: int| 0 <= j < x implies !same_kind(#[trigger] t2.kinds()[j], k) by {
        lemma_prefix_kind(t1, t2, j as TypeId);
        assert(t1.kinds()[j] == t2.kinds()[j]);
    }
    lemma_first_unique(t2, k, x);
}

/// The immutable counterpart of a mutable pointer or slice type.
pub open spec fn downgraded(k: TypeKind) -> Option<TypeKind> {
    match k {
        TypeKind::Pointer { is_mut: true, elem } => Some(TypeKind::Pointer { is_mut: false, elem }),
        TypeKind::VolatilePtr { is_mut: true, elem } => Some(TypeKind::VolatilePtr { is_mut: false, elem }),
        TypeKind::Slice { is_mut: true, elem } => Some(TypeKind::Slice { is_mut: false, elem }),
        _ => None,
    }
}

/// The immutable slice an array decays to.
pub open spec fn decayed(k: TypeKind) -> Option<TypeKind> {
    match k {
        TypeKind::Array { elem, .. } | TypeKind::ArrayInfer { elem, .. } => Some(
            TypeKind::Slice { is_mut: false, elem },
        ),
        _ => None,
    }
}

/// `s` with `x` appended where it does not already hold it.
pub open spec fn push_new(s: Seq<TypeId>, x: TypeId) -> Seq<TypeId> {
    if s.contains(x) {
        s
    } else {
        s.push(x)
    }
}

/// `s` with the interned id of `k` appended where there is a `k` and the
/// id is new.
pub open spec fn push_kind(types: TypeRegistry, s: Seq<TypeId>, k: Option<TypeKind>) -> Seq<TypeId> {
    match k {
        Some(k) => push_new(s, interned_id(types, k)),
        None => s,
    }
}

fn push_if_new(v: &mut Vec<TypeId>, x: TypeId)
    ensures
        final(v)@ == push_new(old(v)@, x),
{
    let mut i: usize = 0;
    while i < v.len()
        invariant
            i <= v@.len(),
            v@ == old(v)@,
            forall|j: int| 0 <= j < i ==> v@[j] != x,
        decreases v@.len() - i,
    {
        if v[i] == x {
            assert(v@.contains(x));
            return;
        }
        i = i + 1;
    }
    v.push(x);
}

impl ExprChecker {
    /// The types whose methods a call on a receiver of type `receiver_ty` may
    /// use, in order: the receiver, its immutable counterpart, the slice an
    /// array receiver decays to, and the type under its pointer layers, each
    /// once.
    pub fn method_receiver_search_types(&mut self, receiver_ty: TypeId) -> (r: Vec<TypeId>)
        requires
            old(self).wf(),
        ensures
            old(self).grows_to(*final(self)),
            final(self).ctx.types.len() < u32::MAX ==> r@ == push_new(
                push_kind(
                    final(self).ctx.types,
                    push_kind(
                        final(self).ctx.types,
                        seq![old(self).resolved(receiver_ty)],
                        downgraded(old(self).kind_of(receiver_ty)),
                    ),
                    decayed(old(self).kind_of(receiver_ty)),
                ),
                old(self).base_of(receiver_ty),
            ),
            r@.len() >= 1,
            r@[0] == old(self).resolved(receiver_ty),
    {
        let receiver_norm = self.resolve_tv(receiver_ty);
        let base_norm = self.get_base_type(receiver_ty);
        let mut search: Vec<TypeId> = Vec::new();
        search.push(receiver_norm);
        proof {
            assert(children_below(self.ctx.types.kinds()[receiver_norm as int], receiver_norm as int));
            lemma_prefix_refl(self.ctx.types.kinds());
        }
        let (down, decay) = match self.ctx.types.get(receiver_norm) {
            TypeKind::Pointer { is_mut: true, elem } => (
                Some(TypeKind::Pointer { is_mut: false, elem: *elem }),
                None,
            ),
            TypeKind::VolatilePtr { is_mut: true, elem } => (
                Some(TypeKind::VolatilePtr { is_mut: false, elem: *elem }),
                None,
            ),
            TypeKind::Slice { is_mut: true, elem } => (Some(TypeKind::Slice { is_mut: false, elem: *elem }), None),
            TypeKind::Array { elem, .. } | TypeKind::ArrayInfer { elem, .. } => (
                None,
                Some(TypeKind::Slice { is_mut: false, elem: *elem }),
            ),
            _ => (None, None),
        };
        let ghost s0 = *self;
        let ghost k0 = downgraded(self.ctx.types.kind(receiver_norm));
        let ghost k1 = decayed(self.ctx.types.kind(receiver_norm));
        assert(down == k0);
        assert(decay == k1);
        let ghost mut first_dg: Option<TypeId> = None;
        if let Some(k) = down {
            match self.ctx.types.intern_checked(k) {
                Some(ty) => {
                    proof {
                        first_dg = Some(ty);
                    }
                    push_if_new(&mut search, ty);
                },
                None => {},
            }
        }
        let ghost s1 = *self;
        proof {
            if let Some(d) = first_dg {
                assert(first_of(s1.ctx.types, k0.unwrap(), d));
            }
        }
        if let Some(k) = decay {
            match self.ctx.types.intern_checked(k) {
                Some(ty) => {
                    push_if_new(&mut search, ty);
                    proof {
                        lemma_first_unique(self.ctx.types, k, ty);
                    }
                },
                None => {},
            }
        }
        push_if_new(&mut search, base_norm);
        proof {
            lemma_prefix_trans(old(self).ctx.types.kinds(), s1.ctx.types.kinds(), self.ctx.types.kinds());
            if let Some(d) = first_dg {
                lemma_first_grow(s1.ctx.types, self.ctx.types, k0.unwrap(), d);
            }
            assert(search@[0] == receiver_norm);
        }
        search
    }
}

/// A const generic argument that still names a parameter.
pub open spec fn const_has_params(c: ConstGeneric) -> bool {
    c is Param
}

impl ExprChecker {
    /// A generic argument whose meaning does not depend on the caller's
    /// generic parameters.
    pub open spec fn arg_ground(self, a: GenericArg) -> bool {
        match a {
            GenericArg::Type(t) => !contains_unresolved(self.ctx.types, self.resolved(t)),
            GenericArg::Const(c) => !const_has_params(c),
        }
    }

    /// A generic argument with its inference variables followed.
    pub open spec fn arg_canonical(self, a: GenericArg) -> GenericArg {
        match a {
            GenericArg::Type(t) => GenericArg::Type(self.resolved(t)),
            GenericArg::Const(c) => GenericArg::Const(c),
        }
    }

    /// The key under which the success of a bound check on the instantiation
    /// of `def_id` with `arg_values` can be remembered: only where no bound is
    /// in force and every argument is ground, with the arguments resolved.
    pub fn generic_bounds_success_cache_key(&self, def_id: DefId, arg_values: &Vec<GenericArg>) -> (r: Option<
        (DefId, Vec<GenericArg>),
    >)
        requires
            self.wf(),
        ensures
            r is Some <==> (self.active_bounds@.len() == 0 && forall|i: int|
                0 <= i < arg_values@.len() ==> self.arg_ground(#[trigger] arg_values@[i])),
            r matches Some((d, args)) ==> d == def_id && args@.len() == arg_values@.len() && forall|i: int|
                0 <= i < arg_values@.len() ==> #[trigger] args@[i] == self.arg_canonical(arg_values@[i]),
    {
        if self.active_bounds.len() != 0 {
            return None;
        }
        let mut canonical: Vec<GenericArg> = Vec::new();
        let mut i: usize = 0;
        while i < arg_values.len()
            invariant
                self.wf(),
                self.active_bounds@.len() == 0,
                i <= arg_values@.len(),
                canonical@.len() == i,
                forall|j: int| 0 <= j < i ==> self.arg_ground(#[trigger] arg_values@[j]),
                forall|j: int| 0 <= j < i ==> #[trigger] canonical@[j] == self.arg_canonical(arg_values@[j]),
            decreases arg_values@.len() - i,
        {
            match arg_values[i] {
                GenericArg::Type(ty) => {
                    let t = self.resolve_tv(ty);
                    if self.type_contains_unresolved_params(t) {
                        return None;
                    }
                    canonical.push(GenericArg::Type(t));
                },
                GenericArg::Const(value) => {
                    if let ConstGeneric::Param(_) = value {
                        return None;
                    }
                    canonical.push(GenericArg::Const(value));
                },
            }
            i = i + 1;
        }
        Some((def_id, canonical))
    }
}

} // verus!
