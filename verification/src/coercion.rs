//! Structural unification of a generic type against a concrete one, the
//! compatibility of function signatures built on it, and the binding of
//! inference variables by a coercion.

use vstd::prelude::*;
use crate::types::{TypeId, SymbolId, TypeKind, TypeRegistry, TY_ERROR};
use crate::checker::{ExprChecker, tv_chain};
use crate::eval_state::{find_entry, find_in_scope};
use crate::typeops::{contains_unresolved, any_unresolved};
use crate::eval_spec::known_ty;
use crate::types::children_below;

verus! {

/// Unifies the generic type `g` with the concrete type `c`, extending `map`
/// with the parameters of `g` it binds; at most `fuel` levels deep.
/// The result says whether they unify, and gives the map as it stands then.
pub open spec fn unify_spec(
    types: TypeRegistry,
    tvs: Seq<Option<TypeId>>,
    g: TypeId,
    c: TypeId,
    map: Seq<(SymbolId, TypeId)>,
    fuel: nat,
) -> (bool, Seq<(SymbolId, TypeId)>)
    decreases fuel, 0int,
{
    let gn = tv_chain(types, tvs, g, tvs.len());
    let cn = tv_chain(types, tvs, c, tvs.len());
    if fuel == 0 {
        (gn == cn, map)
    } else {
        match (types.kind(gn), types.kind(cn)) {
            (TypeKind::Param(name), _) => match find_entry(map, name) {
                Some(t) => (t == c, map),
                None => (true, map.push((name, c))),
            },
            (TypeKind::Pointer { is_mut: gm, elem: ge }, TypeKind::Pointer { is_mut: cm, elem: ce }) => if gm
                != cm {
                (false, map)
            } else {
                unify_spec(types, tvs, ge, ce, map, (fuel - 1) as nat)
            },
            (
                TypeKind::VolatilePtr { is_mut: gm, elem: ge },
                TypeKind::VolatilePtr { is_mut: cm, elem: ce },
            ) => if gm != cm {
                (false, map)
            } else {
                unify_spec(types, tvs, ge, ce, map, (fuel - 1) as nat)
            },
            (TypeKind::Slice { is_mut: gm, elem: ge }, TypeKind::Slice { is_mut: cm, elem: ce }) => if gm
                != cm {
                (false, map)
            } else {
                unify_spec(types, tvs, ge, ce, map, (fuel - 1) as nat)
            },
            (
                TypeKind::Array { is_mut: gm, elem: ge, len: gl },
                TypeKind::Array { is_mut: cm, elem: ce, len: cl },
            ) => if gm != cm || gl != cl {
                (false, map)
            } else {
                unify_spec(types, tvs, ge, ce, map, (fuel - 1) as nat)
            },
            (
                TypeKind::ArrayInfer { is_mut: gm, elem: ge },
                TypeKind::ArrayInfer { is_mut: cm, elem: ce },
            ) => if gm != cm {
                (false, map)
            } else {
                unify_spec(types, tvs, ge, ce, map, (fuel - 1) as nat)
            },
            (TypeKind::Def(gi, ga), TypeKind::Def(ci, ca)) => if gi != ci {
                (gn == cn, map)
            } else if ga@.len() != ca@.len() {
                (false, map)
            } else {
                unify_all(types, tvs, ga@, ca@, 0, map, (fuel - 1) as nat)
            },
            (TypeKind::Enum(gi, ga), TypeKind::Enum(ci, ca)) => if gi != ci {
                (gn == cn, map)
            } else if ga@.len() != ca@.len() {
                (false, map)
            } else {
                unify_all(types, tvs, ga@, ca@, 0, map, (fuel - 1) as nat)
            },
            (TypeKind::TraitObject(gi, ga), TypeKind::TraitObject(ci, ca)) => if gi != ci {
                (gn == cn, map)
            } else if ga@.len() != ca@.len() {
                (false, map)
            } else {
                unify_all(types, tvs, ga@, ca@, 0, map, (fuel - 1) as nat)
            },
            (
                TypeKind::ClosureInterface { params: gp, ret: gr },
                TypeKind::ClosureInterface { params: cp, ret: cr },
            ) => if gp@.len() != cp@.len() {
                (false, map)
            } else {
                let (ok, m) = unify_all(types, tvs, gp@, cp@, 0, map, (fuel - 1) as nat);
                if !ok {
                    (false, m)
                } else {
                    unify_spec(types, tvs, gr, cr, m, (fuel - 1) as nat)
                }
            },
            (
                TypeKind::AnonymousState { captures: gc, params: gp, ret: gr },
                TypeKind::AnonymousState { captures: cc, params: cp, ret: cr },
            ) => if gc@.len() != cc@.len() || gp@.len() != cp@.len() {
                (false, map)
            } else {
                let (ok1, m1) = unify_all(types, tvs, gc@, cc@, 0, map, (fuel - 1) as nat);
                if !ok1 {
                    (false, m1)
                } else {
                    let (ok2, m2) = unify_all(types, tvs, gp@, cp@, 0, m1, (fuel - 1) as nat);
                    if !ok2 {
                        (false, m2)
                    } else {
                        unify_spec(types, tvs, gr, cr, m2, (fuel - 1) as nat)
                    }
                }
            },
            _ => (gn == cn, map),
        }
    }
}

/// Unifies `gs[i..]` with `cs[i..]` pairwise, stopping at the first failure.
pub open spec fn unify_all(
    types: TypeRegistry,
    tvs: Seq<Option<TypeId>>,
    gs: Seq<TypeId>,
    cs: Seq<TypeId>,
    i: int,
    map: Seq<(SymbolId, TypeId)>,
    fuel: nat,
) -> (bool, Seq<(SymbolId, TypeId)>)
    decreases fuel, gs.len() - i,
{
    if i < 0 || i >= gs.len() {
        (true, map)
    } else {
        let (ok, m) = unify_spec(types, tvs, gs[i], cs[i], map, fuel);
        if !ok {
            (false, m)
        } else {
            unify_all(types, tvs, gs, cs, i + 1, m, fuel)
        }
    }
}

/// A signature `(ap) -> ar` can stand where `(ep) -> er` is expected: the
/// parameters and then the return types unify, with one map throughout.
pub open spec fn sig_compat(
    types: TypeRegistry,
    tvs: Seq<Option<TypeId>>,
    ep: Seq<TypeId>,
    er: TypeId,
    ap: Seq<TypeId>,
    ar: TypeId,
    fuel: nat,
) -> bool {
    if ep.len() != ap.len() {
        false
    } else {
        let (ok, m) = unify_all(types, tvs, ep, ap, 0, Seq::empty(), fuel);
        ok && unify_spec(types, tvs, er, ar, m, fuel).0
    }
}

impl ExprChecker {
    /// The depth to which types are unified: enough for every type whose
    /// inference variables are bound without cycles.
    pub open spec fn unify_depth(self) -> nat {
        self.ctx.types.len() * (self.type_vars@.len() + 1)
    }

    pub fn unify_budget(&self) -> (r: u128)
        requires
            self.wf(),
        ensures
            r == self.unify_depth(),
    {
        let nt = self.ctx.types.num_types() as u128;
        let nv = (self.type_vars.len() as u128) + 1;
        assert(nt * nv <= 0xffff_ffff * 0x1_0000_0000_0000_0000) by (nonlinear_arith)
            requires
                nt <= 0xffff_ffff,
                nv <= 0x1_0000_0000_0000_0000,
        ;
        nt * nv
    }

    /// Unifies the generic type `generic_ty` with `concrete_ty`, recording in
    /// `map` the type each generic parameter stands for.
    pub fn unify(&self, generic_ty: TypeId, concrete_ty: TypeId, map: &mut Vec<(SymbolId, TypeId)>) -> (r:
        bool)
        requires
            self.wf(),
        ensures
            (r, final(map)@) == unify_spec(
                self.ctx.types,
                self.type_vars@,
                generic_ty,
                concrete_ty,
                old(map)@,
                self.unify_depth(),
            ),
    {
        let fuel = self.unify_budget();
        self.unify_with(generic_ty, concrete_ty, map, fuel)
    }

    pub(crate) fn unify_with(&self, g: TypeId, c: TypeId, map: &mut Vec<(SymbolId, TypeId)>, fuel: u128) -> (r: bool)
        requires
            self.wf(),
        ensures
            (r, final(map)@) == unify_spec(self.ctx.types, self.type_vars@, g, c, old(map)@, fuel as nat),
        decreases fuel, 0int,
    {
        let gn = self.resolve_tv(g);
        let cn = self.resolve_tv(c);
        if fuel == 0 {
            return gn == cn;
        }
        let f = fuel - 1;
        match (self.ctx.types.get(gn), self.ctx.types.get(cn)) {
            (TypeKind::Param(name), _) => match find_in_scope(map, *name) {
                Some(i) => map[i].1 == c,
                None => {
                    map.push((*name, c));
                    true
                },
            },
            (TypeKind::Pointer { is_mut: gm, elem: ge }, TypeKind::Pointer { is_mut: cm, elem: ce })
            | (TypeKind::VolatilePtr { is_mut: gm, elem: ge }, TypeKind::VolatilePtr { is_mut: cm, elem: ce })
            | (TypeKind::Slice { is_mut: gm, elem: ge }, TypeKind::Slice { is_mut: cm, elem: ce })
            | (TypeKind::ArrayInfer { is_mut: gm, elem: ge }, TypeKind::ArrayInfer { is_mut: cm, elem: ce }) => {
                if *gm != *cm {
                    false
                } else {
                    self.unify_with(*ge, *ce, map, f)
                }
            },
            (
                TypeKind::Array { is_mut: gm, elem: ge, len: gl },
                TypeKind::Array { is_mut: cm, elem: ce, len: cl },
            ) => {
                if *gm != *cm || *gl != *cl {
                    false
                } else {
                    self.unify_with(*ge, *ce, map, f)
                }
            },
            (TypeKind::Def(gi, ga), TypeKind::Def(ci, ca))
            | (TypeKind::Enum(gi, ga), TypeKind::Enum(ci, ca))
            | (TypeKind::TraitObject(gi, ga), TypeKind::TraitObject(ci, ca)) => {
                if *gi != *ci {
                    gn == cn
                } else if ga.len() != ca.len() {
                    false
                } else {
                    self.unify_each(ga, ca, map, f)
                }
            },
            (
                TypeKind::ClosureInterface { params: gp, ret: gr },
                TypeKind::ClosureInterface { params: cp, ret: cr },
            ) => {
                if gp.len() != cp.len() {
                    false
                } else if !self.unify_each(gp, cp, map, f) {
                    false
                } else {
                    self.unify_with(*gr, *cr, map, f)
                }
            },
            (
                TypeKind::AnonymousState { captures: gc, params: gp, ret: gr },
                TypeKind::AnonymousState { captures: cc, params: cp, ret: cr },
            ) => {
                if gc.len() != cc.len() || gp.len() != cp.len() {
                    false
                } else if !self.unify_each(gc, cc, map, f) {
                    false
                } else if !self.unify_each(gp, cp, map, f) {
                    false
                } else {
                    self.unify_with(*gr, *cr, map, f)
                }
            },
            _ => gn == cn,
        }
    }

    /// Unifies `gs` with `cs` pairwise, stopping at the first failure.
    fn unify_each(&self, gs: &Vec<TypeId>, cs: &Vec<TypeId>, map: &mut Vec<(SymbolId, TypeId)>, fuel: u128) -> (r:
        bool)
        requires
            self.wf(),
            gs@.len() == cs@.len(),
        ensures
            (r, final(map)@) == unify_all(self.ctx.types, self.type_vars@, gs@, cs@, 0, old(map)@, fuel as nat),
        decreases fuel, gs@.len() + 1,
    {
        let mut i: usize = 0;
        while i < gs.len()
            invariant
                self.wf(),
                gs@.len() == cs@.len(),
                i <= gs@.len(),
                unify_all(self.ctx.types, self.type_vars@, gs@, cs@, 0, old(map)@, fuel as nat) == unify_all(
                    self.ctx.types,
                    self.type_vars@,
                    gs@,
                    cs@,
                    i as int,
                    map@,
                    fuel as nat,
                ),
            decreases gs@.len() - i,
        {
            if !self.unify_with(gs[i], cs[i], map, fuel) {
                return false;
            }
            i = i + 1;
        }
        true
    }

    /// Whether a function of signature `(actual_params) -> actual_ret` can
    /// stand where one of `(expected_params) -> expected_ret` is expected.
    pub fn signatures_compatible(
        &self,
        expected_params: &Vec<TypeId>,
        expected_ret: TypeId,
        actual_params: &Vec<TypeId>,
        actual_ret: TypeId,
    ) -> (r: bool)
        requires
            self.wf(),
        ensures
            r == sig_compat(
                self.ctx.types,
                self.type_vars@,
                expected_params@,
                expected_ret,
                actual_params@,
                actual_ret,
                self.unify_depth(),
            ),
    {
        if expected_params.len() != actual_params.len() {
            return false;
        }
        let fuel = self.unify_budget();
        let mut map: Vec<(SymbolId, TypeId)> = Vec::new();
        assert(map@ =~= Seq::<(SymbolId, TypeId)>::empty());
        if !self.unify_each(expected_params, actual_params, &mut map, fuel) {
            return false;
        }
        self.unify_with(expected_ret, actual_ret, &mut map, fuel)
    }

    /// A closure that captures nothing decays to a plain function of a
    /// compatible signature; `act_kind` is the closure's resolved kind.
    pub fn check_closure_decay_to_function(
        &self,
        expected_params: &Vec<TypeId>,
        expected_ret: TypeId,
        act_kind: &TypeKind,
    ) -> (r: bool)
        requires
            self.wf(),
        ensures
            r == (match *act_kind {
                TypeKind::AnonymousState { captures, params, ret } => captures@.len() == 0 && sig_compat(
                    self.ctx.types,
                    self.type_vars@,
                    expected_params@,
                    expected_ret,
                    params@,
                    ret,
                    self.unify_depth(),
                ),
                _ => false,
            }),
    {
        match act_kind {
            TypeKind::AnonymousState { captures, params, ret } => captures.len() == 0
                && self.signatures_compatible(expected_params, expected_ret, params, *ret),
            _ => false,
        }
    }

    /// A coercion between two types of which one is an unbound inference
    /// variable binds it to the other; `exp` and `act` are resolved.
    pub fn check_type_var(&mut self, exp: TypeId, act: TypeId) -> (r: bool)
        requires
            old(self).wf(),
            old(self).ctx.types.valid(exp),
            old(self).ctx.types.valid(act),
            old(self).ctx.types.kind(act) matches TypeKind::TypeVar(v) ==> v < old(self).type_vars@.len(),
            !(old(self).ctx.types.kind(act) is TypeVar) ==> (old(self).ctx.types.kind(exp) matches TypeKind::TypeVar(
                v,
            ) ==> v < old(self).type_vars@.len()),
        ensures
            r == (old(self).ctx.types.kind(act) is TypeVar || old(self).ctx.types.kind(exp) is TypeVar),
            old(self).ctx.types.kind(act) matches TypeKind::TypeVar(v) ==> final(self).type_vars@ == old(
                self,
            ).type_vars@.update(v as int, Some(exp)),
            !(old(self).ctx.types.kind(act) is TypeVar) ==> (match old(self).ctx.types.kind(exp) {
                TypeKind::TypeVar(v) => final(self).type_vars@ == old(self).type_vars@.update(
                    v as int,
                    Some(act),
                ),
                _ => final(self).type_vars@ == old(self).type_vars@,
            }),
            final(self).ctx == old(self).ctx,
            final(self).active_bounds == old(self).active_bounds,
            final(self).impls == old(self).impls,
            final(self).current_module_cache == old(self).current_module_cache,
            !r ==> *final(self) == *old(self),
            final(self).wf(),
    {
        if let TypeKind::TypeVar(v) = self.ctx.types.get(act) {
            let v = *v;
            self.type_vars.set(v as usize, Some(exp));
            return true;
        }
        if let TypeKind::TypeVar(v) = self.ctx.types.get(exp) {
            let v = *v;
            self.type_vars.set(v as usize, Some(act));
            return true;
        }
        false
    }
}

/// A type without generic parameters or inference variables unifies with
/// itself, binding nothing.
pub proof fn lemma_unify_refl(
    types: TypeRegistry,
    tvs: Seq<Option<TypeId>>,
    g: TypeId,
    map: Seq<(SymbolId, TypeId)>,
    fuel: nat,
)
    requires
        types.wf(),
        types.valid(g),
        !contains_unresolved(types, g),
    ensures
        unify_spec(types, tvs, g, g, map, fuel) == (true, map),
    decreases fuel, 0int,
{
    types.lemma_norm(g);
    let n = types.norm(g);
    assert(known_ty(types, g) == g);
    assert(tv_chain(types, tvs, g, tvs.len()) == n);
    assert(children_below(types.kinds()[n as int], n as int));
    if fuel > 0 {
        match types.kind(n) {
            TypeKind::Pointer { elem, .. } | TypeKind::VolatilePtr { elem, .. } | TypeKind::Slice {
                elem,
                ..
            } | TypeKind::Array { elem, .. } | TypeKind::ArrayInfer { elem, .. } => {
                lemma_unify_refl(types, tvs, elem, map, (fuel - 1) as nat);
            },
            TypeKind::Def(_, args) | TypeKind::Enum(_, args) | TypeKind::TraitObject(_, args) => {
                lemma_no_unresolved_each(types, args@, n as int);
                lemma_unify_all_refl(types, tvs, args@, 0, map, (fuel - 1) as nat, n as int);
            },
            TypeKind::ClosureInterface { params, ret } => {
                lemma_no_unresolved_each(types, params@, n as int);
                lemma_unify_all_refl(types, tvs, params@, 0, map, (fuel - 1) as nat, n as int);
                lemma_unify_refl(types, tvs, ret, map, (fuel - 1) as nat);
            },
            TypeKind::AnonymousState { captures, params, ret } => {
                lemma_no_unresolved_each(types, captures@, n as int);
                lemma_no_unresolved_each(types, params@, n as int);
                lemma_unify_all_refl(types, tvs, captures@, 0, map, (fuel - 1) as nat, n as int);
                lemma_unify_all_refl(types, tvs, params@, 0, map, (fuel - 1) as nat, n as int);
                lemma_unify_refl(types, tvs, ret, map, (fuel - 1) as nat);
            },
            _ => {},
        }
    }
}

proof fn lemma_unify_all_refl(
    types: TypeRegistry,
    tvs: Seq<Option<TypeId>>,
    gs: Seq<TypeId>,
    i: int,
    map: Seq<(SymbolId, TypeId)>,
    fuel: nat,
    b: int,
)
    requires
        types.wf(),
        0 <= i,
        b <= types.len(),
        forall|j: int| 0 <= j < gs.len() ==> #[trigger] gs[j] < b && !contains_unresolved(types, gs[j]),
    ensures
        unify_all(types, tvs, gs, gs, i, map, fuel) == (true, map),
    decreases fuel, gs.len() - i,
{
    if i < gs.len() {
        assert(gs[i] < b);
        lemma_unify_refl(types, tvs, gs[i], map, fuel);
        lemma_unify_all_refl(types, tvs, gs, i + 1, map, fuel, b);
    }
}

/// No id of a list without unresolved parameters has any.
proof fn lemma_no_unresolved_each(types: TypeRegistry, ids: Seq<TypeId>, b: int)
    requires
        !any_unresolved(types, ids, b),
        forall|j: int| 0 <= j < ids.len() ==> #[trigger] ids[j] < b,
    ensures
        forall|j: int| 0 <= j < ids.len() ==> #[trigger] ids[j] < b && !contains_unresolved(types, ids[j]),
    decreases ids.len(),
{
    if ids.len() > 0 {
        let rest = ids.subrange(1, ids.len() as int);
        assert forall|j: int| 0 <= j < rest.len() implies #[trigger] rest[j] < b by {
            assert(rest[j] == ids[j + 1]);
        }
        lemma_no_unresolved_each(types, rest, b);
        assert forall|j: int| 0 <= j < ids.len() implies #[trigger] ids[j] < b && !contains_unresolved(
            types,
            ids[j],
        ) by {
            if j > 0 {
                assert(rest[j - 1] == ids[j]);
            }
        }
    }
}

} // verus!
