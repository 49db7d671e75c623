//! Trait relations between types: the supertrait hierarchy of trait objects,
//! and whether a type implements a trait, by a bound in force or by an impl.
//! Both walks instantiate generic types and so may intern new ones.

use vstd::prelude::*;
use vstd::set_lib::{lemma_int_range, lemma_len_subset, set_int_range};
use crate::types::{TypeId, SymbolId, DefId, TypeKind, TypeRegistry, children_below};
use crate::context::Def;
use crate::checker::{ExprChecker, tv_chain, lemma_tv_chain_valid};
use crate::eval_spec::known_ty;
use crate::subst::{copy_ids, map_in_registry, map_valid, lemma_prefix_kind, children, lemma_children_below};
use crate::eval::lemma_prefix_trans;
use crate::typeops::{contains_unresolved, any_unresolved};
use crate::coercion::lemma_unify_refl;

verus! {

pub proof fn lemma_prefix_refl<T>(a: Seq<T>)
    ensures
        a.is_prefix_of(a),
{
    assert(a =~= a.subrange(0, a.len() as int));
}

/// A list of distinct 32-bit ids has at most 2^32 entries.
pub proof fn lemma_distinct_ids_bound(s: Seq<u32>)
    requires
        s.no_duplicates(),
    ensures
        s.len() <= 0x1_0000_0000,
{
    let si = s.map_values(|x: u32| x as int);
    assert(si.no_duplicates()) by {
        assert forall|i: int, j: int| 0 <= i < si.len() && 0 <= j < si.len() && i != j implies si[i]
            != si[j] by {
            assert(s[i] != s[j]);
        }
    }
    si.unique_seq_to_set();
    lemma_int_range(0, 0x1_0000_0000);
    assert(si.to_set().subset_of(set_int_range(0, 0x1_0000_0000))) by {
        assert forall|x: int| si.to_set().contains(x) implies set_int_range(0, 0x1_0000_0000).contains(x) by {
            let i = choose|i: int| 0 <= i < si.len() && si[i] == x;
            assert(si[i] == s[i] as int);
        }
    }
    lemma_len_subset(si.to_set(), set_int_range(0, 0x1_0000_0000));
}

/// Normalisation of a type is unchanged as the registry grows.
pub proof fn lemma_norm_grow(t1: TypeRegistry, t2: TypeRegistry, t: TypeId)
    requires
        t1.wf(),
        t1.kinds().is_prefix_of(t2.kinds()),
        t1.valid(t),
    ensures
        t2.norm(t) == t1.norm(t),
    decreases t,
{
    lemma_prefix_kind(t1, t2, t);
    if let TypeKind::Alias(_, target) = t1.kind(t) {
        assert(children_below(t1.kinds()[t as int], t as int));
        if target < t {
            lemma_norm_grow(t1, t2, target);
        }
    }
}

/// Following inference variables from a type of the registry, all bound to
/// types of the registry, is unchanged as the registry grows.
pub proof fn lemma_tv_chain_grow(
    t1: TypeRegistry,
    t2: TypeRegistry,
    tvs: Seq<Option<TypeId>>,
    t: TypeId,
    fuel: nat,
)
    requires
        t1.wf(),
        t1.kinds().is_prefix_of(t2.kinds()),
        t1.valid(t),
        forall|v: int| 0 <= v < tvs.len() ==> (#[trigger] tvs[v] matches Some(x) ==> t1.valid(x)),
    ensures
        tv_chain(t2, tvs, t, fuel) == tv_chain(t1, tvs, t, fuel),
    decreases fuel,
{
    lemma_prefix_kind(t1, t2, t);
    assert(known_ty(t2, t) == t);
    lemma_norm_grow(t1, t2, t);
    t1.lemma_norm(t);
    let n = t1.norm(t);
    lemma_prefix_kind(t1, t2, n);
    if let TypeKind::TypeVar(v) = t1.kind(n) {
        if fuel > 0 && v < tvs.len() && tvs[v as int] is Some {
            lemma_tv_chain_grow(t1, t2, tvs, tvs[v as int].unwrap(), (fuel - 1) as nat);
        }
    }
}

/// Whether a type mentions generic parameters or inference variables is
/// unchanged as the registry grows.
pub proof fn lemma_unresolved_grow(t1: TypeRegistry, t2: TypeRegistry, t: TypeId)
    requires
        t1.wf(),
        t1.kinds().is_prefix_of(t2.kinds()),
        t1.valid(t),
    ensures
        contains_unresolved(t2, t) == contains_unresolved(t1, t),
    decreases t + 1, 0int,
{
    lemma_prefix_kind(t1, t2, t);
    assert(known_ty(t2, t) == t);
    lemma_norm_grow(t1, t2, t);
    t1.lemma_norm(t);
    let n = t1.norm(t);
    lemma_prefix_kind(t1, t2, n);
    assert(children_below(t1.kinds()[n as int], n as int));
    match t1.kind(n) {
        TypeKind::Pointer { elem, .. } | TypeKind::VolatilePtr { elem, .. } | TypeKind::Slice {
            elem,
            ..
        } | TypeKind::Array { elem, .. } | TypeKind::ArrayInfer { elem, .. } | TypeKind::Simd {
            elem,
            ..
        } => {
            lemma_unresolved_grow(t1, t2, elem);
        },
        TypeKind::Def(_, args) | TypeKind::Enum(_, args) | TypeKind::TraitObject(_, args)
        | TypeKind::FnDef(_, args) => {
            lemma_any_unresolved_grow(t1, t2, args@, n as int);
        },
        TypeKind::Function { params, ret, .. } | TypeKind::ClosureInterface { params, ret } => {
            lemma_any_unresolved_grow(t1, t2, params@, n as int);
            lemma_unresolved_grow(t1, t2, ret);
        },
        TypeKind::AnonymousState { captures, params, ret } => {
            lemma_any_unresolved_grow(t1, t2, captures@, n as int);
            lemma_any_unresolved_grow(t1, t2, params@, n as int);
            lemma_unresolved_grow(t1, t2, ret);
        },
        _ => {},
    }
}

proof fn lemma_any_unresolved_grow(t1: TypeRegistry, t2: TypeRegistry, ids: Seq<TypeId>, b: int)
    requires
        t1.wf(),
        t1.kinds().is_prefix_of(t2.kinds()),
        b <= t1.len(),
    ensures
        any_unresolved(t2, ids, b) == any_unresolved(t1, ids, b),
    decreases b, ids.len(),
{
    if ids.len() > 0 {
        if ids[0] < b {
            lemma_unresolved_grow(t1, t2, ids[0]);
        }
        lemma_any_unresolved_grow(t1, t2, ids.subrange(1, ids.len() as int), b);
    }
}

pub fn contains_id(v: &Vec<u32>, x: u32) -> (r: bool)
    ensures
        r == v@.contains(x),
{
    let mut i: usize = 0;
    while i < v.len()
        invariant
            i <= v@.len(),
            forall|j: int| 0 <= j < i ==> v@[j] != x,
        decreases v@.len() - i,
    {
        if v[i] == x {
            return true;
        }
        i = i + 1;
    }
    false
}

/// Adds `x`, known to be absent, to a list of distinct ids.
pub fn push_new_id(v: &mut Vec<u32>, x: u32)
    requires
        old(v)@.no_duplicates(),
        !old(v)@.contains(x),
    ensures
        final(v)@ == old(v)@.push(x),
        final(v)@.no_duplicates(),
{
    proof {
        let s = old(v)@.push(x);
        assert(s.no_duplicates()) by {
            assert forall|i: int, j: int| 0 <= i < s.len() && 0 <= j < s.len() && i != j implies s[i]
                != s[j] by {
                if i < old(v)@.len() && j < old(v)@.len() {
                } else if i < old(v)@.len() {
                    assert(old(v)@.contains(s[i]));
                } else {
                    assert(old(v)@.contains(s[j]));
                }
            }
        }
        lemma_distinct_ids_bound(s);
    }
    v.push(x);
}

impl ExprChecker {
    /// Every inference variable is bound, if at all, to a type of the registry.
    pub open spec fn tvars_valid(self) -> bool {
        forall|v: int|
            0 <= v < self.type_vars@.len() ==> (#[trigger] self.type_vars@[v] matches Some(x)
                ==> self.ctx.types.valid(x))
    }

    /// `t` is a type of the registry that mentions no generic parameter and
    /// no inference variable.
    pub open spec fn ground(self, t: TypeId) -> bool {
        self.ctx.types.valid(t) && !contains_unresolved(self.ctx.types, t)
    }

    /// An impl in scope names exactly the type `source` and the trait `target`.
    pub open spec fn has_direct_impl(self, source: TypeId, target: TypeId) -> bool {
        &&& source != crate::types::TY_ERROR
        &&& target != crate::types::TY_ERROR
        &&& exists|k: int| 0 <= k < self.impls@.len() && #[trigger] self.impls@[k] == (source, target)
    }

    /// A bound in force on exactly the type `source` lists the trait `target`.
    pub open spec fn has_direct_bound(self, source: TypeId, target: TypeId) -> bool {
        exists|k: int|
            0 <= k < self.active_bounds@.len() && (#[trigger] self.active_bounds@[k]).0 == source
                && self.active_bounds@[k].1@.contains(target)
    }

    /// `source` resolves to a trait object not in `visited` whose trait, with
    /// no generic arguments to apply, lists among its supertraits a type of
    /// the registry that resolves as `target` does.
    pub open spec fn direct_supertrait(self, visited: Seq<TypeId>, source: TypeId, target: TypeId) -> bool {
        let s = self.resolved(source);
        &&& !visited.contains(s)
        &&& self.ctx.types.kind(s) matches TypeKind::TraitObject(d, args) && d < self.ctx.defs@.len() && (
        self.ctx.defs@[d as int] matches Def::Trait { generics, supertraits } && (generics@.len() == 0
            || args@.len() == 0) && exists|j: int|
            0 <= j < supertraits@.len() && self.ctx.types.valid(#[trigger] supertraits@[j])
                && self.resolved(supertraits@[j]) == self.resolved(target))
    }

    /// Resolving `t` reaches a type that is not a bound inference variable.
    pub open spec fn settled(self, t: TypeId) -> bool {
        !(self.kind_of(t) matches TypeKind::TypeVar(v) && v < self.type_vars@.len()
            && self.type_vars@[v as int] is Some)
    }

    /// `after` is `self` with types added to the registry and nothing else
    /// changed.
    pub open spec fn grows_to(self, after: Self) -> bool {
        &&& after.wf()
        &&& self.ctx.types.kinds().is_prefix_of(after.ctx.types.kinds())
        &&& after.ctx.types.ptr_bytes() == self.ctx.types.ptr_bytes()
        &&& after.ctx.defs == self.ctx.defs
        &&& after.ctx.scopes == self.ctx.scopes
        &&& after.ctx.current_scope == self.ctx.current_scope
        &&& after.ctx.diags == self.ctx.diags
        &&& after.ctx.max_atomic_bits == self.ctx.max_atomic_bits
        &&& after.type_vars == self.type_vars
        &&& after.active_bounds == self.active_bounds
        &&& after.impls == self.impls
        &&& after.current_module_cache == self.current_module_cache
    }

    /// `after` is `self` with types added to the registry and diagnostics
    /// added to the report, and nothing else changed.
    pub open spec fn grows_reporting(self, after: Self) -> bool {
        &&& after.wf()
        &&& self.ctx.types.kinds().is_prefix_of(after.ctx.types.kinds())
        &&& after.ctx.types.ptr_bytes() == self.ctx.types.ptr_bytes()
        &&& after.ctx.defs == self.ctx.defs
        &&& after.ctx.scopes == self.ctx.scopes
        &&& after.ctx.current_scope == self.ctx.current_scope
        &&& self.ctx.diags@.is_prefix_of(after.ctx.diags@)
        &&& after.ctx.max_atomic_bits == self.ctx.max_atomic_bits
        &&& after.type_vars == self.type_vars
        &&& after.active_bounds == self.active_bounds
        &&& after.impls == self.impls
        &&& after.current_module_cache == self.current_module_cache
    }

    pub proof fn lemma_reporting_trans(self, mid: Self, after: Self)
        requires
            self.grows_reporting(mid),
            mid.grows_reporting(after),
        ensures
            self.grows_reporting(after),
    {
        lemma_prefix_trans(self.ctx.types.kinds(), mid.ctx.types.kinds(), after.ctx.types.kinds());
        lemma_prefix_trans(self.ctx.diags@, mid.ctx.diags@, after.ctx.diags@);
    }

    /// Growing the registry alone, or adding diagnostics alone, is growing
    /// while reporting.
    pub proof fn lemma_reporting_from(self, after: Self)
        requires
            self.wf(),
            self.grows_to(after) || (self.same_but_diags(after) && self.ctx.diags@.is_prefix_of(
                after.ctx.diags@,
            )),
        ensures
            self.grows_reporting(after),
    {
        lemma_prefix_refl(self.ctx.diags@);
        lemma_prefix_refl(self.ctx.types.kinds());
    }

    /// Growing the registry keeps the bindings valid and every resolution of a
    /// type already in it.
    pub proof fn lemma_grows(self, after: Self, t: TypeId)
        requires
            self.wf(),
            self.tvars_valid(),
            self.grows_to(after),
        ensures
            after.tvars_valid(),
            self.ctx.types.valid(t) ==> after.resolved(t) == self.resolved(t),
            self.ctx.types.valid(t) ==> after.ctx.types.valid(t),
    {
        assert forall|v: int| 0 <= v < after.type_vars@.len() implies (#[trigger] after.type_vars@[v] matches Some(
            x,
        ) ==> after.ctx.types.valid(x)) by {
            assert(self.type_vars@[v] == after.type_vars@[v]);
        }
        if self.ctx.types.valid(t) {
            lemma_prefix_kind(self.ctx.types, after.ctx.types, t);
            lemma_tv_chain_grow(self.ctx.types, after.ctx.types, self.type_vars@, t, self.type_vars@.len());
        }
    }

    /// As `lemma_grows`, where diagnostics may have been added too.
    pub proof fn lemma_grows_reporting(self, after: Self, t: TypeId)
        requires
            self.wf(),
            self.tvars_valid(),
            self.grows_reporting(after),
        ensures
            after.tvars_valid(),
            self.ctx.types.valid(t) ==> after.resolved(t) == self.resolved(t),
            self.ctx.types.valid(t) ==> after.ctx.types.valid(t),
            self.ctx.types.valid(t) ==> after.ctx.types.kind(t) == self.ctx.types.kind(t),
    {
        assert forall|v: int| 0 <= v < after.type_vars@.len() implies (#[trigger] after.type_vars@[v] matches Some(
            x,
        ) ==> after.ctx.types.valid(x)) by {
            assert(self.type_vars@[v] == after.type_vars@[v]);
        }
        if self.ctx.types.valid(t) {
            lemma_prefix_kind(self.ctx.types, after.ctx.types, t);
            lemma_tv_chain_grow(self.ctx.types, after.ctx.types, self.type_vars@, t, self.type_vars@.len());
        }
    }

    pub proof fn lemma_grows_trans(self, mid: Self, after: Self)
        requires
            self.grows_to(mid),
            mid.grows_to(after),
        ensures
            self.grows_to(after),
    {
        lemma_prefix_trans(self.ctx.types.kinds(), mid.ctx.types.kinds(), after.ctx.types.kinds());
    }

    /// Substitutes `map` throughout `t` in the registry.
    pub(crate) fn subst_in(&mut self, map: &Vec<(SymbolId, TypeId)>, t: TypeId) -> (r: Option<TypeId>)
        requires
            old(self).wf(),
            map_valid(old(self).ctx.types, map@),
        ensures
            old(self).grows_to(*final(self)),
            r matches Some(x) ==> crate::subst::subst_rel(final(self).ctx.types, map@, t, x),
            r matches Some(x) ==> (old(self).ctx.types.valid(t) ==> final(self).ctx.types.valid(x)),
            r is None ==> final(self).ctx.types.len() >= u32::MAX,
            map@.len() == 0 ==> r == Some(t),
    {
        let r = self.ctx.types.substitute(map, t);
        proof {
        }
        r
    }

    /// Searches the supertraits of the trait object `source_trait_ty`,
    /// transitively, for `target_trait_ty`; `visited` holds the trait objects
    /// already searched, and is extended by the ones searched now.
    pub fn find_supertrait_in_hierarchy(
        &mut self,
        source_trait_ty: TypeId,
        target_trait_ty: TypeId,
        visited: &mut Vec<TypeId>,
    ) -> (r: Option<TypeId>)
        requires
            old(self).wf(),
            old(self).tvars_valid(),
            old(self).ctx.types.valid(source_trait_ty),
            old(self).ctx.types.valid(target_trait_ty),
            old(visited)@.no_duplicates(),
        ensures
            old(self).grows_to(*final(self)),
            final(self).tvars_valid(),
            final(visited)@.no_duplicates(),
            old(visited)@.is_prefix_of(final(visited)@),
            old(visited)@.contains(old(self).resolved(source_trait_ty)) ==> r is None && final(visited)@
                == old(visited)@,
            r is Some ==> old(self).kind_of(source_trait_ty) is TraitObject,
            r matches Some(x) ==> (old(self).settled(target_trait_ty) ==> x == old(self).resolved(
                target_trait_ty,
            )),
            old(self).direct_supertrait(old(visited)@, source_trait_ty, target_trait_ty) ==> r is Some,
        decreases 0x1_0000_0000 - old(visited)@.len(),
    {
        let source_norm = self.resolve_tv(source_trait_ty);
        let target_norm = self.resolve_tv(target_trait_ty);
        proof {
            lemma_prefix_refl(self.ctx.types.kinds());
            lemma_prefix_refl(visited@);
        }
        if contains_id(visited, source_norm) {
            return None;
        }
        push_new_id(visited, source_norm);
        proof {
            lemma_distinct_ids_bound(visited@);
            assert(old(visited)@.is_prefix_of(visited@)) by {
                assert(old(visited)@ =~= visited@.subrange(0, old(visited)@.len() as int));
            }
        }
        let (def_id, args) = match self.ctx.types.get(source_norm) {
            TypeKind::TraitObject(d, a) => (*d, copy_ids(a)),
            _ => {
                return None;
            },
        };
        proof {
            assert(children_below(self.ctx.types.kinds()[source_norm as int], source_norm as int));
        }
        if (def_id as usize) >= self.ctx.defs.len() {
            return None;
        }
        let (generics, supers) = match &self.ctx.defs[def_id as usize] {
            Def::Trait { generics, supertraits } => (copy_ids(generics), copy_ids(supertraits)),
            _ => {
                return None;
            },
        };
        // The map from each generic parameter to its argument; where a name
        // repeats, the last pairing counts.
        let mut arg_map: Vec<(SymbolId, TypeId)> = Vec::new();
        let n = if generics.len() < args.len() {
            generics.len()
        } else {
            args.len()
        };
        let mut k: usize = n;
        while k > 0
            invariant
                k <= n,
                n <= generics@.len(),
                n <= args@.len(),
                args@ == (match self.ctx.types.kind(source_norm) {
                    TypeKind::TraitObject(_, a) => a@,
                    _ => Seq::empty(),
                }),
                self.ctx.types.wf(),
                self.ctx.types.valid(source_norm),
                forall|j: int| 0 <= j < args@.len() ==> #[trigger] args@[j] < source_norm,
                map_valid(self.ctx.types, arg_map@),
                arg_map@.len() == n - k,
            decreases k,
        {
            k = k - 1;
            arg_map.push((generics[k], args[k]));
        }
        let ghost s0 = *self;
        let ghost v0 = visited@;
        let ghost dcond = old(self).direct_supertrait(old(visited)@, source_trait_ty, target_trait_ty);
        proof {
            if dcond {
                assert(arg_map@.len() == 0);
            }
        }
        let mut i: usize = 0;
        while i < supers.len()
            invariant
                dcond == old(self).direct_supertrait(old(visited)@, source_trait_ty, target_trait_ty),
                dcond ==> arg_map@.len() == 0,
                dcond ==> (old(self).ctx.defs@[def_id as int] matches Def::Trait { supertraits, .. }
                    && supertraits@ == supers@),
                dcond ==> forall|k: int|
                    0 <= k < i ==> !(old(self).ctx.types.valid(#[trigger] supers@[k]) && old(self).resolved(
                        supers@[k],
                    ) == old(self).resolved(target_trait_ty)),
                s0.wf(),
                s0.tvars_valid(),
                old(self).wf(),
                old(self).tvars_valid(),
                !old(visited)@.contains(old(self).resolved(source_trait_ty)),
                old(self).grows_to(s0),
                s0.grows_to(*self),
                self.wf(),
                self.tvars_valid(),
                self.ctx.types.valid(target_norm),
                target_norm == old(self).resolved(target_trait_ty),
                old(self).ctx.types.valid(target_trait_ty),
                map_valid(self.ctx.types, arg_map@),
                visited@.no_duplicates(),
                v0.is_prefix_of(visited@),
                old(visited)@.is_prefix_of(v0),
                v0.len() == old(visited)@.len() + 1,
                old(self).kind_of(source_trait_ty) is TraitObject,
            decreases supers@.len() - i,
        {
            let ghost before = *self;
            let inst = if arg_map.len() == 0 {
                supers[i]
            } else {
                match self.subst_in(&arg_map, supers[i]) {
                    Some(x) => x,
                    None => {
                        proof {
                            old(self).lemma_grows_trans(s0, before);
                            old(self).lemma_grows_trans(before, *self);
                            before.lemma_grows(*self, target_norm);
                            lemma_prefix_trans(old(visited)@, v0, visited@);
                        }
                        return None;
                    },
                }
            };
            proof {
                if arg_map.len() != 0 {
                    before.lemma_grows(*self, target_norm);
                }
                assert(map_valid(self.ctx.types, arg_map@));
            }
            let inst_norm = self.resolve_tv(inst);
            proof {
                old(self).lemma_grows_trans(s0, before);
                if arg_map.len() != 0 {
                    old(self).lemma_grows_trans(before, *self);
                    s0.lemma_grows_trans(before, *self);
                }
                old(self).lemma_grows(*self, target_trait_ty);
                old(self).lemma_grows(*self, supers@[i as int]);
                lemma_prefix_trans(old(visited)@, v0, visited@);
            }
            if inst_norm == target_norm {
                return Some(inst_norm);
            }
            let ghost mid = *self;
            let ghost vmid = visited@;
            proof {
                lemma_prefix_refl(visited@);
                lemma_distinct_ids_bound(visited@);
            }
            let found = self.find_supertrait_in_hierarchy(inst_norm, target_norm, visited);
            proof {
                mid.lemma_grows(*self, target_norm);
                old(self).lemma_grows_trans(mid, *self);
                s0.lemma_grows_trans(mid, *self);
                lemma_prefix_trans(v0, vmid, visited@);
                lemma_prefix_trans(old(visited)@, v0, visited@);
                if old(self).settled(target_trait_ty) {
                    crate::laws::law_resolve_idempotent(old(self).ctx.types, old(self).type_vars@, target_trait_ty);
                    lemma_tv_chain_valid(old(self).ctx.types, old(self).type_vars@, target_trait_ty, old(self).type_vars@.len());
                    old(self).lemma_grows(mid, target_norm);
                    lemma_prefix_kind(old(self).ctx.types, mid.ctx.types, target_norm);
                }
            }
            if let Some(f) = found {
                return Some(f);
            }
            i = i + 1;
        }
        proof {
            lemma_prefix_trans(old(visited)@, v0, visited@);
            old(self).lemma_grows_trans(s0, *self);
        }
        None
    }
}

impl ExprChecker {
    /// Whether the trait object `source_trait_ty` is, or has among its
    /// supertraits, `target_trait_ty`.
    pub fn is_trait_object_upcast(&mut self, source_trait_ty: TypeId, target_trait_ty: TypeId) -> (r: bool)
        requires
            old(self).wf(),
            old(self).tvars_valid(),
            old(self).ctx.types.valid(source_trait_ty),
            old(self).ctx.types.valid(target_trait_ty),
        ensures
            old(self).grows_to(*final(self)),
            final(self).tvars_valid(),
            old(self).resolved(source_trait_ty) == old(self).resolved(target_trait_ty) ==> r,
            r && old(self).resolved(source_trait_ty) != old(self).resolved(target_trait_ty) && old(
                self,
            ).settled(source_trait_ty) ==> old(self).kind_of(source_trait_ty) is TraitObject,
            old(self).settled(source_trait_ty) && old(self).settled(target_trait_ty) && old(
                self,
            ).direct_supertrait(Seq::empty(), source_trait_ty, target_trait_ty) ==> r,
    {
        let source_norm = self.resolve_tv(source_trait_ty);
        let target_norm = self.resolve_tv(target_trait_ty);
        if source_norm == target_norm {
            proof {
                lemma_prefix_refl(self.ctx.types.kinds());
            }
            return true;
        }
        let mut visited: Vec<TypeId> = Vec::new();
        let ghost s0 = *self;
        let found = self.find_supertrait_in_hierarchy(source_norm, target_norm, &mut visited);
        proof {
            if s0.settled(source_trait_ty) {
                crate::laws::law_resolve_idempotent(s0.ctx.types, s0.type_vars@, source_trait_ty);
            }
            if s0.settled(target_trait_ty) {
                crate::laws::law_resolve_idempotent(s0.ctx.types, s0.type_vars@, target_trait_ty);
            }
        }
        found.is_some()
    }
}

impl ExprChecker {
    /// Interns `k` in the registry, where it has room.
    pub fn intern_ty(&mut self, k: TypeKind) -> (r: Option<TypeId>)
        requires
            old(self).wf(),
            children_below(k, old(self).ctx.types.len() as int),
        ensures
            old(self).grows_to(*final(self)),
            r matches Some(x) ==> final(self).ctx.types.valid(x) && crate::types::same_kind(
                final(self).ctx.types.kind(x),
                k,
            ),
            r matches Some(x) ==> crate::lookup::first_of(final(self).ctx.types, k, x),
            r is None ==> final(self).ctx.types.len() >= u32::MAX,
    {
        self.ctx.types.intern_checked(k)
    }

    /// Whether `source_ty` implements the trait `target_trait_ty`, by the
    /// bounds in force or by an impl; a mutable pointer or slice also
    /// implements what its immutable counterpart implements.
    pub fn check_trait_impl(&mut self, source_ty: TypeId, target_trait_ty: TypeId) -> (r: bool)
        requires
            old(self).wf(),
            old(self).tvars_valid(),
        ensures
            old(self).grows_to(*final(self)),
            final(self).tvars_valid(),
            old(self).active_bounds@.len() == 0 && old(self).impls@.len() == 0 ==> !r,
            old(self).ground(source_ty) && (old(self).has_direct_bound(source_ty, target_trait_ty) || old(
                self,
            ).has_direct_impl(source_ty, target_trait_ty)) ==> r,
    {
        let mut visited: Vec<DefId> = Vec::new();
        if self.check_trait_impl_inner(source_ty, target_trait_ty, &mut visited) {
            return true;
        }
        let ghost s1 = *self;
        let n = self.resolve_tv(source_ty);
        proof {
            assert(children_below(self.ctx.types.kinds()[n as int], n as int));
        }
        let down = match self.ctx.types.get(n) {
            TypeKind::Pointer { is_mut: true, elem } => Some(TypeKind::Pointer { is_mut: false, elem: *elem }),
            TypeKind::VolatilePtr { is_mut: true, elem } => Some(
                TypeKind::VolatilePtr { is_mut: false, elem: *elem },
            ),
            TypeKind::Slice { is_mut: true, elem } => Some(TypeKind::Slice { is_mut: false, elem: *elem }),
            _ => None,
        };
        match down {
            Some(k) => {
                match self.intern_ty(k) {
                    Some(d) => {
                        let ghost s2 = *self;
                        proof {
                            s1.lemma_grows(s2, 0);
                            old(self).lemma_grows_trans(s1, s2);
                        }
                        let mut again: Vec<DefId> = Vec::new();
                        let r = self.check_trait_impl_inner(d, target_trait_ty, &mut again);
                        proof {
                            old(self).lemma_grows_trans(s2, *self);
                        }
                        r
                    },
                    None => {
                        proof {
                            s1.lemma_grows(*self, 0);
                            old(self).lemma_grows_trans(s1, *self);
                        }
                        false
                    },
                }
            },
            None => false,
        }
    }

    /// Whether `source_ty` implements `target_trait_ty`; `visited` holds the
    /// traits whose supertraits were already followed.
    pub fn check_trait_impl_inner(
        &mut self,
        source_ty: TypeId,
        target_trait_ty: TypeId,
        visited: &mut Vec<DefId>,
    ) -> (r: bool)
        requires
            old(self).wf(),
            old(self).tvars_valid(),
            old(visited)@.no_duplicates(),
        ensures
            old(self).grows_to(*final(self)),
            final(self).tvars_valid(),
            final(visited)@.no_duplicates(),
            old(visited)@.is_prefix_of(final(visited)@),
            old(self).active_bounds@.len() == 0 && old(self).impls@.len() == 0 ==> !r,
            old(self).ground(source_ty) && (old(self).has_direct_bound(source_ty, target_trait_ty) || old(
                self,
            ).has_direct_impl(source_ty, target_trait_ty)) ==> r,
        decreases 0x1_0000_0000 - old(visited)@.len(), 2int,
    {
        proof {
            lemma_distinct_ids_bound(visited@);
        }
        let ghost s0 = *self;
        let ghost v0 = visited@;
        if self.check_trait_impl_in_env_bounds(source_ty, target_trait_ty, visited) {
            return true;
        }
        proof {
            lemma_distinct_ids_bound(visited@);
        }
        let ghost s1 = *self;
        let ghost v1 = visited@;
        proof {
            if old(self).ground(source_ty) {
                lemma_unresolved_grow(old(self).ctx.types, s1.ctx.types, source_ty);
                lemma_prefix_kind(old(self).ctx.types, s1.ctx.types, source_ty);
            }
        }
        let r = self.check_trait_impl_in_global_impls(source_ty, target_trait_ty, visited);
        proof {
            old(self).lemma_grows_trans(s1, *self);
            lemma_prefix_trans(v0, v1, visited@);
        }
        r
    }

    /// Whether a bound in force makes `source_ty` implement
    /// `target_trait_ty`, directly or through the bound's supertraits.
    pub fn check_trait_impl_in_env_bounds(
        &mut self,
        source_ty: TypeId,
        target_trait_ty: TypeId,
        visited: &mut Vec<DefId>,
    ) -> (r: bool)
        requires
            old(self).wf(),
            old(self).tvars_valid(),
            old(visited)@.no_duplicates(),
        ensures
            old(self).grows_to(*final(self)),
            final(self).tvars_valid(),
            final(visited)@.no_duplicates(),
            old(visited)@.is_prefix_of(final(visited)@),
            old(self).active_bounds@.len() == 0 ==> !r,
            old(self).ground(source_ty) && old(self).has_direct_bound(source_ty, target_trait_ty) ==> r,
        decreases 0x1_0000_0000 - old(visited)@.len(), 1int,
    {
        proof {
            lemma_prefix_refl(self.ctx.types.kinds());
            lemma_prefix_refl(visited@);
        }
        let nb = self.active_bounds.len();
        let mut i: usize = 0;
        while i < nb
            invariant
                old(self).wf(),
                old(self).tvars_valid(),
                old(self).grows_to(*self),
                self.wf(),
                self.tvars_valid(),
                nb == old(self).active_bounds@.len(),
                i <= nb,
                visited@.no_duplicates(),
                old(visited)@.is_prefix_of(visited@),
                old(self).ground(source_ty) ==> forall|k: int|
                    0 <= k < i ==> !((#[trigger] old(self).active_bounds@[k]).0 == source_ty
                        && old(self).active_bounds@[k].1@.contains(target_trait_ty)),
            decreases nb - i,
        {
            let env_target = self.active_bounds[i].0;
            let env_bounds = copy_ids(&self.active_bounds[i].1);
            let ghost direct = old(self).ground(source_ty) && env_target == source_ty;
            proof {
                if direct {
                    lemma_unresolved_grow(old(self).ctx.types, self.ctx.types, source_ty);
                    lemma_unify_refl(self.ctx.types, self.type_vars@, source_ty, Seq::empty(), self.unify_depth());
                }
            }
            let mut map: Vec<(SymbolId, TypeId)> = Vec::new();
            if self.unify(env_target, source_ty, &mut map) && map_in_registry(&self.ctx.types, &map) {
                let ghost s1 = *self;
                let mut inst: Vec<TypeId> = Vec::new();
                let mut j: usize = 0;
                while j < env_bounds.len()
                    invariant
                        s1.wf(),
                        s1.tvars_valid(),
                        old(self).grows_to(s1),
                        s1.grows_to(*self),
                        self.wf(),
                        map_valid(self.ctx.types, map@),
                        j <= env_bounds@.len(),
                        map@.len() == 0 ==> inst@ == env_bounds@.subrange(0, j as int),
                    decreases env_bounds@.len() - j,
                {
                    let ghost before = *self;
                    match self.subst_in(&map, env_bounds[j]) {
                        Some(x) => {
                            inst.push(x);
                        },
                        None => {},
                    }
                    proof {
                        s1.lemma_grows_trans(before, *self);
                        assert(map@.len() == 0 ==> inst@ =~= env_bounds@.subrange(0, j + 1));
                    }
                    j = j + 1;
                }
                proof {
                    assert(map@.len() == 0 ==> inst@ =~= env_bounds@);
                }
                proof {
                    s1.lemma_grows(*self, 0);
                    old(self).lemma_grows_trans(s1, *self);
                }
                let mut j: usize = 0;
                while j < inst.len()
                    invariant
                        old(self).wf(),
                        old(self).tvars_valid(),
                        old(self).grows_to(*self),
                        self.wf(),
                        self.tvars_valid(),
                        visited@.no_duplicates(),
                        old(visited)@.is_prefix_of(visited@),
                        nb == old(self).active_bounds@.len(),
                        i < nb,
                        j <= inst@.len(),
                        map@.len() == 0 ==> inst@ == env_bounds@,
                        forall|jj: int| 0 <= jj < j ==> #[trigger] inst@[jj] != target_trait_ty,
                    decreases inst@.len() - j,
                {
                    let b = inst[j];
                    let inst_norm = self.resolve_tv(b);
                    let target_norm = self.resolve_tv(target_trait_ty);
                    if inst_norm == target_norm || b == target_trait_ty {
                        return true;
                    }
                    let d = match self.ctx.types.get(inst_norm) {
                        TypeKind::TraitObject(d, _) => Some(*d),
                        _ => None,
                    };
                    if let Some(d) = d {
                        if !contains_id(visited, d) {
                            let ghost vb = visited@;
                            push_new_id(visited, d);
                            proof {
                                assert(vb =~= visited@.subrange(0, vb.len() as int));
                                lemma_prefix_trans(old(visited)@, vb, visited@);
                                lemma_distinct_ids_bound(visited@);
                            }
                            let ghost s2 = *self;
                            let ghost v2 = visited@;
                            let found = self.check_trait_impl_inner(b, target_trait_ty, visited);
                            proof {
                                old(self).lemma_grows_trans(s2, *self);
                                lemma_prefix_trans(old(visited)@, v2, visited@);
                            }
                            if found {
                                return true;
                            }
                        }
                    }
                    j = j + 1;
                }
                proof {
                    if map@.len() == 0 {
                        assert forall|x: TypeId| #[trigger] env_bounds@.contains(x) implies x != target_trait_ty by {
                            let k = choose|k: int| 0 <= k < env_bounds@.len() && env_bounds@[k] == x;
                            assert(inst@[k] == x);
                        }
                    }
                }
            }
            proof {
                assert(env_bounds@ == old(self).active_bounds@[i as int].1@);
                assert(direct ==> !env_bounds@.contains(target_trait_ty));
            }
            i = i + 1;
        }
        false
    }

    /// Whether an impl makes `source_ty` implement `target_trait_ty`,
    /// directly or through the supertraits of the trait it implements.
    pub fn check_trait_impl_in_global_impls(
        &mut self,
        source_ty: TypeId,
        target_trait_ty: TypeId,
        visited: &mut Vec<DefId>,
    ) -> (r: bool)
        requires
            old(self).wf(),
            old(self).tvars_valid(),
            old(visited)@.no_duplicates(),
        ensures
            old(self).grows_to(*final(self)),
            final(self).tvars_valid(),
            final(visited)@.no_duplicates(),
            old(visited)@.is_prefix_of(final(visited)@),
            old(self).impls@.len() == 0 ==> !r,
            old(self).ground(source_ty) && old(self).has_direct_impl(source_ty, target_trait_ty) ==> r,
        decreases 0x1_0000_0000 - old(visited)@.len(), 1int,
    {
        proof {
            lemma_prefix_refl(self.ctx.types.kinds());
            lemma_prefix_refl(visited@);
        }
        let ni = self.impls.len();
        let mut i: usize = 0;
        while i < ni
            invariant
                old(self).wf(),
                old(self).tvars_valid(),
                old(self).grows_to(*self),
                self.wf(),
                self.tvars_valid(),
                ni == old(self).impls@.len(),
                i <= ni,
                visited@.no_duplicates(),
                old(visited)@.is_prefix_of(visited@),
                old(self).ground(source_ty) && source_ty != crate::types::TY_ERROR && target_trait_ty
                    != crate::types::TY_ERROR ==> forall|k: int|
                    0 <= k < i ==> #[trigger] old(self).impls@[k] != (source_ty, target_trait_ty),
            decreases ni - i,
        {
            let (impl_target, impl_trait) = self.impls[i];
            let ghost direct = old(self).ground(source_ty) && source_ty != crate::types::TY_ERROR
                && target_trait_ty != crate::types::TY_ERROR && impl_target == source_ty && impl_trait
                == target_trait_ty;
            proof {
                if direct {
                    lemma_unresolved_grow(old(self).ctx.types, self.ctx.types, source_ty);
                    lemma_unify_refl(self.ctx.types, self.type_vars@, source_ty, Seq::empty(), self.unify_depth());
                }
            }
            let mut map: Vec<(SymbolId, TypeId)> = Vec::new();
            if impl_target != crate::types::TY_ERROR && impl_trait != crate::types::TY_ERROR && self.unify(
                impl_target,
                source_ty,
                &mut map,
            ) && map_in_registry(&self.ctx.types, &map) {
                let ghost s1 = *self;
                let sub = self.subst_in(&map, impl_trait);
                proof {
                    s1.lemma_grows(*self, 0);
                    old(self).lemma_grows_trans(s1, *self);
                }
                if let Some(inst) = sub {
                    let inst_norm = self.resolve_tv(inst);
                    let target_norm = self.resolve_tv(target_trait_ty);
                    if inst_norm == target_norm || inst == target_trait_ty {
                        return true;
                    }
                    let d = match self.ctx.types.get(inst_norm) {
                        TypeKind::TraitObject(d, _) => Some(*d),
                        _ => None,
                    };
                    if let Some(d) = d {
                        if !contains_id(visited, d) {
                            let ghost vb = visited@;
                            push_new_id(visited, d);
                            proof {
                                assert(vb =~= visited@.subrange(0, vb.len() as int));
                                lemma_prefix_trans(old(visited)@, vb, visited@);
                            }
                            let ghost vd = visited@;
                            let supers = if (d as usize) < self.ctx.defs.len() {
                                match &self.ctx.defs[d as usize] {
                                    Def::Trait { supertraits, .. } => copy_ids(supertraits),
                                    _ => Vec::new(),
                                }
                            } else {
                                Vec::new()
                            };
                            let mut k: usize = 0;
                            while k < supers.len()
                                invariant
                                    old(self).wf(),
                                    old(self).tvars_valid(),
                                    old(self).grows_to(*self),
                                    self.wf(),
                                    self.tvars_valid(),
                                    map_valid(self.ctx.types, map@),
                                    visited@.no_duplicates(),
                                    old(visited)@.is_prefix_of(vd),
                                    vd.is_prefix_of(visited@),
                                    vd.len() > old(visited)@.len(),
                                    ni == old(self).impls@.len(),
                                    i < ni,
                                    k <= supers@.len(),
                                decreases supers@.len() - k,
                            {
                                let ghost s2 = *self;
                                let sub2 = self.subst_in(&map, supers[k]);
                                proof {
                                    s2.lemma_grows(*self, 0);
                                    old(self).lemma_grows_trans(s2, *self);
                                }
                                if let Some(inst_super) = sub2 {
                                    if inst_super == target_trait_ty {
                                        proof {
                                            lemma_prefix_trans(old(visited)@, vd, visited@);
                                        }
                                        return true;
                                    }
                                    proof {
                                        lemma_distinct_ids_bound(visited@);
                                        lemma_prefix_trans(old(visited)@, vd, visited@);
                                    }
                                    let ghost s3 = *self;
                                    let ghost v3 = visited@;
                                    let found = self.check_trait_impl_inner(source_ty, inst_super, visited);
                                    proof {
                                        old(self).lemma_grows_trans(s3, *self);
                                        lemma_prefix_trans(vd, v3, visited@);
                                        lemma_prefix_trans(old(visited)@, vd, visited@);
                                    }
                                    if found {
                                        return true;
                                    }
                                }
                                k = k + 1;
                            }
                            proof {
                                lemma_prefix_trans(old(visited)@, vd, visited@);
                            }
                        }
                    }
                }
            }
            i = i + 1;
        }
        false
    }
}

} // verus!
