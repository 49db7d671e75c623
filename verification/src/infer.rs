//! Inference of the generic arguments of a call: a generic type is matched
//! against the concrete type found in its place, and each generic parameter
//! met on the way is bound to the concrete type opposite it.

use vstd::prelude::*;
use crate::types::{TypeId, SymbolId, DefId, TypeKind, TypeRegistry, children_below};
use crate::context::Def;
use crate::checker::{ExprChecker, tv_chain};
use crate::eval_state::{find_entry, find_in_scope};
use crate::subst::{children, children_of, copy_ids, copy_kind, map_valid, lemma_children_below, lemma_prefix_kind};
use crate::traits::{lemma_prefix_refl, lemma_distinct_ids_bound, contains_id, push_new_id};
use crate::eval::lemma_prefix_trans;

verus! {

/// The generic parameter `name` occurs in `t` (inference variables
/// followed), or in the type `map` binds a parameter of `t` to; at most
/// `fuel` levels deep.
pub open spec fn param_occurs(
    types: TypeRegistry,
    tvs: Seq<Option<TypeId>>,
    name: SymbolId,
    t: TypeId,
    map: Seq<(SymbolId, TypeId)>,
    fuel: nat,
) -> bool
    decreases fuel, 0int,
{
    if fuel == 0 {
        false
    } else {
        let n = tv_chain(types, tvs, t, tvs.len());
        match types.kind(n) {
            TypeKind::Param(p) => p == name || (find_entry(map, p) matches Some(b) && param_occurs(
                types,
                tvs,
                name,
                b,
                map,
                (fuel - 1) as nat,
            )),
            k => occurs_any(types, tvs, name, children(k), 0, map, (fuel - 1) as nat),
        }
    }
}

/// `name` occurs in one of `ts[i..]`.
pub open spec fn occurs_any(
    types: TypeRegistry,
    tvs: Seq<Option<TypeId>>,
    name: SymbolId,
    ts: Seq<TypeId>,
    i: int,
    map: Seq<(SymbolId, TypeId)>,
    fuel: nat,
) -> bool
    decreases fuel, ts.len() - i,
{
    if i < 0 || i >= ts.len() {
        false
    } else {
        param_occurs(types, tvs, name, ts[i], map, fuel) || occurs_any(types, tvs, name, ts, i + 1, map, fuel)
    }
}

/// Matches the generic type `g` against the concrete type `c`, extending
/// `map` with the parameters of `g` it binds; at most `fuel` levels deep.
/// `Some` of whether they match and of the map as it stands then; `None`
/// where the answer rests on searching the supertraits of a trait object.
pub open spec fn infer_spec(
    types: TypeRegistry,
    tvs: Seq<Option<TypeId>>,
    g: TypeId,
    c: TypeId,
    map: Seq<(SymbolId, TypeId)>,
    fuel: nat,
) -> Option<(bool, Seq<(SymbolId, TypeId)>)>
    decreases fuel, 0int,
{
    let gn = tv_chain(types, tvs, g, tvs.len());
    let cn = tv_chain(types, tvs, c, tvs.len());
    if fuel == 0 {
        Some((gn == cn, map))
    } else {
        let f = (fuel - 1) as nat;
        match (types.kind(gn), types.kind(cn)) {
            (TypeKind::Param(name), _) => match find_entry(map, name) {
                Some(t) => Some((t == cn, map)),
                None => if types.kind(cn) matches TypeKind::Param(o) && o == name {
                    Some((true, map.push((name, cn))))
                } else if param_occurs(types, tvs, name, cn, map, fuel) {
                    Some((false, map))
                } else {
                    Some((true, map.push((name, cn))))
                },
            },
            (TypeKind::Pointer { is_mut: gm, elem: ge }, TypeKind::Pointer { is_mut: cm, elem: ce })
            | (TypeKind::VolatilePtr { is_mut: gm, elem: ge }, TypeKind::VolatilePtr { is_mut: cm, elem: ce })
            | (TypeKind::Slice { is_mut: gm, elem: ge }, TypeKind::Slice { is_mut: cm, elem: ce })
            | (TypeKind::ArrayInfer { is_mut: gm, elem: ge }, TypeKind::ArrayInfer { is_mut: cm, elem: ce }) => if gm
                != cm {
                Some((false, map))
            } else {
                infer_spec(types, tvs, ge, ce, map, f)
            },
            (
                TypeKind::Array { is_mut: gm, elem: ge, len: gl },
                TypeKind::Array { is_mut: cm, elem: ce, len: cl },
            ) => if gm != cm || gl != cl {
                Some((false, map))
            } else {
                infer_spec(types, tvs, ge, ce, map, f)
            },
            (TypeKind::Def(gi, ga), TypeKind::Def(ci, ca))
            | (TypeKind::Enum(gi, ga), TypeKind::Enum(ci, ca))
            | (TypeKind::FnDef(gi, ga), TypeKind::FnDef(ci, ca)) => if gi != ci || ga@.len() != ca@.len() {
                Some((false, map))
            } else {
                infer_all(types, tvs, ga@, ca@, 0, map, f)
            },
            (TypeKind::TraitObject(gi, ga), TypeKind::TraitObject(ci, ca)) => if gi == ci && ga@.len()
                == ca@.len() {
                match infer_all(types, tvs, ga@, ca@, 0, map, f) {
                    Some((true, m)) => Some((true, m)),
                    _ => None,
                }
            } else {
                None
            },
            (
                TypeKind::Function { params: gp, ret: gr, is_variadic: gv },
                TypeKind::Function { params: cp, ret: cr, is_variadic: cv },
            ) => if gv != cv || gp@.len() != cp@.len() {
                Some((false, map))
            } else {
                match infer_all(types, tvs, gp@, cp@, 0, map, f) {
                    Some((true, m)) => infer_spec(types, tvs, gr, cr, m, f),
                    other => other,
                }
            },
            (
                TypeKind::ClosureInterface { params: gp, ret: gr },
                TypeKind::ClosureInterface { params: cp, ret: cr },
            ) => if gp@.len() != cp@.len() {
                Some((false, map))
            } else {
                match infer_all(types, tvs, gp@, cp@, 0, map, f) {
                    Some((true, m)) => infer_spec(types, tvs, gr, cr, m, f),
                    other => other,
                }
            },
            _ => Some((gn == cn, map)),
        }
    }
}

/// Matches `gs[i..]` against `cs[i..]` pairwise, stopping at the first
/// mismatch or the first answer that rests on a supertrait search.
pub open spec fn infer_all(
    types: TypeRegistry,
    tvs: Seq<Option<TypeId>>,
    gs: Seq<TypeId>,
    cs: Seq<TypeId>,
    i: int,
    map: Seq<(SymbolId, TypeId)>,
    fuel: nat,
) -> Option<(bool, Seq<(SymbolId, TypeId)>)>
    decreases fuel, gs.len() - i,
{
    if i < 0 || i >= gs.len() {
        Some((true, map))
    } else {
        match infer_spec(types, tvs, gs[i], cs[i], map, fuel) {
            Some((true, m)) => infer_all(types, tvs, gs, cs, i + 1, m, fuel),
            other => other,
        }
    }
}

/// A copy of `m`.
pub fn copy_pairs(m: &Vec<(SymbolId, TypeId)>) -> (r: Vec<(SymbolId, TypeId)>)
    ensures
        r@ == m@,
{
    let mut r: Vec<(SymbolId, TypeId)> = Vec::new();
    let mut i: usize = 0;
    while i < m.len()
        invariant
            i <= m@.len(),
            r@ == m@.subrange(0, i as int),
        decreases m@.len() - i,
    {
        r.push(m[i]);
        i = i + 1;
        assert(r@ =~= m@.subrange(0, i as int));
    }
    assert(r@ =~= m@);
    r
}

/// A map valid in a registry stays valid as the registry grows.
pub proof fn lemma_map_valid_grow(t1: TypeRegistry, t2: TypeRegistry, m: Seq<(SymbolId, TypeId)>)
    requires
        map_valid(t1, m),
        t1.kinds().is_prefix_of(t2.kinds()),
    ensures
        map_valid(t2, m),
{
}

impl ExprChecker {
    /// Whether the generic parameter `name` occurs in `t`, looking through
    /// the parameters bound in `map`.
    pub fn param_occurs_in(&self, name: SymbolId, t: TypeId, map: &Vec<(SymbolId, TypeId)>, fuel: u128) -> (r:
        bool)
        requires
            self.wf(),
        ensures
            r == param_occurs(self.ctx.types, self.type_vars@, name, t, map@, fuel as nat),
        decreases fuel, 0int,
    {
        if fuel == 0 {
            return false;
        }
        let f = fuel - 1;
        let n = self.resolve_tv(t);
        if let TypeKind::Param(p) = self.ctx.types.get(n) {
            if *p == name {
                return true;
            }
            return match find_in_scope(map, *p) {
                Some(i) => self.param_occurs_in(name, map[i].1, map, f),
                None => false,
            };
        }
        let cs = children_of(self.ctx.types.get(n));
        self.param_occurs_any(name, &cs, map, f)
    }

    fn param_occurs_any(&self, name: SymbolId, ts: &Vec<TypeId>, map: &Vec<(SymbolId, TypeId)>, fuel: u128) -> (r:
        bool)
        requires
            self.wf(),
        ensures
            r == occurs_any(self.ctx.types, self.type_vars@, name, ts@, 0, map@, fuel as nat),
        decreases fuel, ts@.len() + 1,
    {
        let mut i: usize = 0;
        while i < ts.len()
            invariant
                self.wf(),
                i <= ts@.len(),
                occurs_any(self.ctx.types, self.type_vars@, name, ts@, 0, map@, fuel as nat) == occurs_any(
                    self.ctx.types,
                    self.type_vars@,
                    name,
                    ts@,
                    i as int,
                    map@,
                    fuel as nat,
                ),
            decreases ts@.len() - i,
        {
            if self.param_occurs_in(name, ts[i], map, fuel) {
                return true;
            }
            i = i + 1;
        }
        false
    }
}

/// An entry of a sequence is also that entry of every sequence it begins.
pub proof fn lemma_prefix_index<T>(a: Seq<T>, b: Seq<T>, j: int)
    requires
        a.is_prefix_of(b),
        0 <= j < a.len(),
    ensures
        b[j] == a[j],
{
    assert(a[j] == b.subrange(0, a.len() as int)[j]);
}

impl ExprChecker {
    /// Collects, depth first, the trait objects of trait `target_trait` in
    /// the supertrait hierarchy of the trait object `trait_ty`, itself
    /// included; `visited` holds the trait objects already walked, and is
    /// extended by the ones walked now.
    pub fn collect_trait_object_hierarchy_candidates(
        &mut self,
        trait_ty: TypeId,
        target_trait: DefId,
        visited: &mut Vec<TypeId>,
        out: &mut Vec<TypeId>,
    )
        requires
            old(self).wf(),
            old(self).tvars_valid(),
            old(visited)@.no_duplicates(),
        ensures
            old(self).grows_to(*final(self)),
            final(self).tvars_valid(),
            final(visited)@.no_duplicates(),
            old(visited)@.is_prefix_of(final(visited)@),
            old(out)@.is_prefix_of(final(out)@),
            forall|k: int|
                old(out)@.len() <= k < final(out)@.len() ==> final(self).ctx.types.valid(#[trigger] final(out)@[k])
                    && (final(self).ctx.types.kind(final(out)@[k]) matches TypeKind::TraitObject(d, _) && d
                    == target_trait),
            !old(visited)@.contains(old(self).resolved(trait_ty)) && (old(self).kind_of(trait_ty) matches TypeKind::TraitObject(
                d,
                _,
            ) && d == target_trait) ==> final(out)@.len() > old(out)@.len() && final(out)@[old(out)@.len() as int]
                == old(self).resolved(trait_ty),
        decreases 0x1_0000_0000 - old(visited)@.len(),
    {
        let trait_norm = self.resolve_tv(trait_ty);
        proof {
            lemma_prefix_refl(self.ctx.types.kinds());
            lemma_prefix_refl(visited@);
            lemma_prefix_refl(out@);
        }
        let (def_id, args) = match self.ctx.types.get(trait_norm) {
            TypeKind::TraitObject(d, a) => (*d, copy_ids(a)),
            _ => {
                return ;
            },
        };
        if contains_id(visited, trait_norm) {
            return ;
        }
        push_new_id(visited, trait_norm);
        proof {
            lemma_distinct_ids_bound(visited@);
            assert(old(visited)@.is_prefix_of(visited@)) by {
                assert(old(visited)@ =~= visited@.subrange(0, old(visited)@.len() as int));
            }
            assert(children_below(self.ctx.types.kinds()[trait_norm as int], trait_norm as int));
        }
        if def_id == target_trait {
            out.push(trait_norm);
            proof {
                assert(old(out)@.is_prefix_of(out@)) by {
                    assert(old(out)@ =~= out@.subrange(0, old(out)@.len() as int));
                }
            }
        }
        if (def_id as usize) >= self.ctx.defs.len() {
            return ;
        }
        let (generics, supers) = match &self.ctx.defs[def_id as usize] {
            Def::Trait { generics, supertraits } => (copy_ids(generics), copy_ids(supertraits)),
            _ => {
                return ;
            },
        };
        // Each generic parameter of the trait mapped to its argument; where a
        // name repeats, the last pairing counts.
        let mut arg_map: Vec<(SymbolId, TypeId)> = Vec::new();
        let n = if generics.len() < args.len() {
            generics.len()
        } else {
            args.len()
        };
        let mut k: usize = n;
        while k > 0
            invariant
                k <= n,
                n <= generics@.len(),
                n <= args@.len(),
                self.ctx.types.wf(),
                self.ctx.types.valid(trait_norm),
                forall|j: int| 0 <= j < args@.len() ==> #[trigger] args@[j] < trait_norm,
                args@ == (match self.ctx.types.kind(trait_norm) {
                    TypeKind::TraitObject(_, a) => a@,
                    _ => Seq::empty(),
                }),
                map_valid(self.ctx.types, arg_map@),
            decreases k,
        {
            k = k - 1;
            arg_map.push((generics[k], args[k]));
        }
        let ghost s0 = *self;
        let ghost v0 = visited@;
        let ghost o0 = out@;
        let ghost first = !old(visited)@.contains(old(self).resolved(trait_ty)) && (old(self).kind_of(
            trait_ty,
        ) matches TypeKind::TraitObject(d, _) && d == target_trait);
        let mut i: usize = 0;
        while i < supers.len()
            invariant
                old(self).wf(),
                old(self).tvars_valid(),
                old(self).grows_to(s0),
                s0.grows_to(*self),
                self.wf(),
                self.tvars_valid(),
                map_valid(self.ctx.types, arg_map@),
                visited@.no_duplicates(),
                v0.is_prefix_of(visited@),
                old(visited)@.is_prefix_of(v0),
                v0.len() == old(visited)@.len() + 1,
                old(out)@.is_prefix_of(o0),
                o0.is_prefix_of(out@),
                forall|k: int|
                    old(out)@.len() <= k < out@.len() ==> self.ctx.types.valid(#[trigger] out@[k]) && (
                    self.ctx.types.kind(out@[k]) matches TypeKind::TraitObject(d, _) && d == target_trait),
                first ==> o0.len() > old(out)@.len() && o0[old(out)@.len() as int] == trait_norm,
                first == (!old(visited)@.contains(old(self).resolved(trait_ty)) && (old(self).kind_of(trait_ty) matches TypeKind::TraitObject(
                    d,
                    _,
                ) && d == target_trait)),
                trait_norm == old(self).resolved(trait_ty),
            decreases supers@.len() - i,
        {
            let ghost before = *self;
            let ghost bout = out@;
            let inst = if arg_map.len() == 0 {
                supers[i]
            } else {
                match self.subst_in(&arg_map, supers[i]) {
                    Some(x) => x,
                    None => {
                        proof {
                            old(self).lemma_grows_trans(s0, before);
                            old(self).lemma_grows_trans(before, *self);
                            lemma_prefix_trans(old(visited)@, v0, visited@);
                            lemma_prefix_trans(old(out)@, o0, out@);
                            assert forall|k: int| old(out)@.len() <= k < out@.len() implies self.ctx.types.valid(
                                #[trigger] out@[k],
                            ) && (self.ctx.types.kind(out@[k]) matches TypeKind::TraitObject(d, _) && d
                                == target_trait) by {
                                lemma_prefix_kind(before.ctx.types, self.ctx.types, out@[k]);
                            }
                            if first {
                                lemma_prefix_index(o0, out@, old(out)@.len() as int);
                                assert(out@.len() > old(out)@.len());
                                assert(out@[old(out)@.len() as int] == trait_norm);
                            }
                        }
                        return ;
                    },
                }
            };
            proof {
                if arg_map.len() != 0 {
                    before.lemma_grows(*self, 0);
                    assert forall|k: int| old(out)@.len() <= k < out@.len() implies self.ctx.types.valid(
                        #[trigger] out@[k],
                    ) && (self.ctx.types.kind(out@[k]) matches TypeKind::TraitObject(d, _) && d == target_trait) by {
                        lemma_prefix_kind(before.ctx.types, self.ctx.types, out@[k]);
                    }
                    lemma_map_valid_grow(before.ctx.types, self.ctx.types, arg_map@);
                }
                lemma_distinct_ids_bound(visited@);
            }
            let ghost mid = *self;
            let ghost vmid = visited@;
            let ghost omid = out@;
            self.collect_trait_object_hierarchy_candidates(inst, target_trait, visited, out);
            proof {
                old(self).lemma_grows_trans(s0, before);
                if arg_map.len() != 0 {
                    s0.lemma_grows_trans(before, mid);
                }
                s0.lemma_grows_trans(mid, *self);
                mid.lemma_grows(*self, 0);
                lemma_map_valid_grow(mid.ctx.types, self.ctx.types, arg_map@);
                lemma_prefix_trans(v0, vmid, visited@);
                lemma_prefix_trans(o0, omid, out@);
                assert forall|k: int| old(out)@.len() <= k < out@.len() implies self.ctx.types.valid(
                    #[trigger] out@[k],
                ) && (self.ctx.types.kind(out@[k]) matches TypeKind::TraitObject(d, _) && d == target_trait) by {
                    if k < omid.len() {
                        assert(out@[k] == omid[k]);
                        lemma_prefix_kind(mid.ctx.types, self.ctx.types, out@[k]);
                    }
                }
            }
            i = i + 1;
        }
        proof {
            old(self).lemma_grows_trans(s0, *self);
            lemma_prefix_trans(old(visited)@, v0, visited@);
            lemma_prefix_trans(old(out)@, o0, out@);
            if first {
                lemma_prefix_index(o0, out@, old(out)@.len() as int);
            }
        }
    }
}

impl ExprChecker {
    /// Infers generic arguments by matching the generic type `generic_ty`
    /// against `concrete_ty`: each generic parameter met is bound in
    /// `type_map` to the concrete type opposite it, unless it is bound
    /// already or occurs in that type. A generic trait object also matches
    /// the trait objects of its trait among the supertraits of the concrete
    /// one; the supertrait walk may intern types.
    pub fn infer_generic_args_from_types(
        &mut self,
        generic_ty: TypeId,
        concrete_ty: TypeId,
        type_map: &mut Vec<(SymbolId, TypeId)>,
    ) -> (r: bool)
        requires
            old(self).wf(),
            old(self).tvars_valid(),
            map_valid(old(self).ctx.types, old(type_map)@),
        ensures
            old(self).grows_to(*final(self)),
            final(self).tvars_valid(),
            map_valid(final(self).ctx.types, final(type_map)@),
            infer_spec(
                old(self).ctx.types,
                old(self).type_vars@,
                generic_ty,
                concrete_ty,
                old(type_map)@,
                old(self).unify_depth(),
            ) matches Some((ok, m)) ==> r == ok && final(type_map)@ == m && *final(self) == *old(self),
    {
        let fuel = self.unify_budget();
        self.infer_with(generic_ty, concrete_ty, type_map, fuel)
    }

    fn infer_with(&mut self, g: TypeId, c: TypeId, map: &mut Vec<(SymbolId, TypeId)>, fuel: u128) -> (r: bool)
        requires
            old(self).wf(),
            old(self).tvars_valid(),
            map_valid(old(self).ctx.types, old(map)@),
        ensures
            old(self).grows_to(*final(self)),
            final(self).tvars_valid(),
            map_valid(final(self).ctx.types, final(map)@),
            infer_spec(old(self).ctx.types, old(self).type_vars@, g, c, old(map)@, fuel as nat) matches Some((ok, m))
                ==> r == ok && final(map)@ == m && *final(self) == *old(self),
        decreases fuel, 0int,
    {
        proof {
            lemma_prefix_refl(self.ctx.types.kinds());
        }
        let gn = self.resolve_tv(g);
        let cn = self.resolve_tv(c);
        if fuel == 0 {
            return gn == cn;
        }
        let f = fuel - 1;
        let gk = copy_kind(self.ctx.types.get(gn));
        let ck = copy_kind(self.ctx.types.get(cn));
        proof {
            assert(children_below(self.ctx.types.kinds()[gn as int], gn as int));
            assert(children_below(self.ctx.types.kinds()[cn as int], cn as int));
        }
        match (&gk, &ck) {
            (TypeKind::Param(name), _) => {
                let name = *name;
                match find_in_scope(map, name) {
                    Some(i) => map[i].1 == cn,
                    None => {
                        let same = match &ck {
                            TypeKind::Param(o) => *o == name,
                            _ => false,
                        };
                        if same {
                            map.push((name, cn));
                            true
                        } else if self.param_occurs_in(name, cn, map, fuel) {
                            false
                        } else {
                            map.push((name, cn));
                            true
                        }
                    },
                }
            },
            (TypeKind::Pointer { is_mut: gm, elem: ge }, TypeKind::Pointer { is_mut: cm, elem: ce })
            | (TypeKind::VolatilePtr { is_mut: gm, elem: ge }, TypeKind::VolatilePtr { is_mut: cm, elem: ce })
            | (TypeKind::Slice { is_mut: gm, elem: ge }, TypeKind::Slice { is_mut: cm, elem: ce })
            | (TypeKind::ArrayInfer { is_mut: gm, elem: ge }, TypeKind::ArrayInfer { is_mut: cm, elem: ce }) => {
                if *gm != *cm {
                    false
                } else {
                    self.infer_with(*ge, *ce, map, f)
                }
            },
            (
                TypeKind::Array { is_mut: gm, elem: ge, len: gl },
                TypeKind::Array { is_mut: cm, elem: ce, len: cl },
            ) => {
                if *gm != *cm || *gl != *cl {
                    false
                } else {
                    self.infer_with(*ge, *ce, map, f)
                }
            },
            (TypeKind::Def(gi, ga), TypeKind::Def(ci, ca))
            | (TypeKind::Enum(gi, ga), TypeKind::Enum(ci, ca))
            | (TypeKind::FnDef(gi, ga), TypeKind::FnDef(ci, ca)) => {
                if *gi != *ci || ga.len() != ca.len() {
                    false
                } else {
                    self.infer_each(ga, ca, map, f)
                }
            },
            (TypeKind::TraitObject(gi, ga), TypeKind::TraitObject(ci, ca)) => {
                self.infer_generic_args_from_trait_object_candidates(*gi, ga, *ci, ca, cn, map, f)
            },
            (
                TypeKind::Function { params: gp, ret: gr, is_variadic: gv },
                TypeKind::Function { params: cp, ret: cr, is_variadic: cv },
            ) => {
                if *gv != *cv || gp.len() != cp.len() {
                    false
                } else if !self.infer_each(gp, cp, map, f) {
                    false
                } else {
                    self.infer_with(*gr, *cr, map, f)
                }
            },
            (
                TypeKind::ClosureInterface { params: gp, ret: gr },
                TypeKind::ClosureInterface { params: cp, ret: cr },
            ) => {
                if gp.len() != cp.len() {
                    false
                } else if !self.infer_each(gp, cp, map, f) {
                    false
                } else {
                    self.infer_with(*gr, *cr, map, f)
                }
            },
            _ => gn == cn,
        }
    }

    /// Matches the generic trait object of trait `gi` with arguments `ga`
    /// against the concrete trait object `cn` (of trait `ci`, arguments
    /// `ca`): against `cn` itself first, then against each trait object of
    /// trait `gi` among its supertraits, keeping the bindings of the first
    /// that matches.
    fn infer_generic_args_from_trait_object_candidates(
        &mut self,
        gi: DefId,
        ga: &Vec<TypeId>,
        ci: DefId,
        ca: &Vec<TypeId>,
        cn: TypeId,
        map: &mut Vec<(SymbolId, TypeId)>,
        fuel: u128,
    ) -> (r: bool)
        requires
            old(self).wf(),
            old(self).tvars_valid(),
            map_valid(old(self).ctx.types, old(map)@),
        ensures
            old(self).grows_to(*final(self)),
            final(self).tvars_valid(),
            map_valid(final(self).ctx.types, final(map)@),
            gi == ci && ga@.len() == ca@.len() ==> (infer_all(
                old(self).ctx.types,
                old(self).type_vars@,
                ga@,
                ca@,
                0,
                old(map)@,
                fuel as nat,
            ) matches Some((true, m)) ==> r && final(map)@ == m && *final(self) == *old(self)),
        decreases fuel, ga@.len() + 2,
    {
        proof {
            lemma_prefix_refl(self.ctx.types.kinds());
        }
        if gi == ci && ga.len() == ca.len() {
            let mut local = copy_pairs(map);
            if self.infer_each(ga, ca, &mut local, fuel) {
                *map = local;
                return true;
            }
            proof {
                lemma_map_valid_grow(old(self).ctx.types, self.ctx.types, map@);
            }
        }
        let ghost direct = gi == ci && ga@.len() == ca@.len() && (infer_all(
            old(self).ctx.types,
            old(self).type_vars@,
            ga@,
            ca@,
            0,
            old(map)@,
            fuel as nat,
        ) matches Some((true, _)));
        assert(!direct);
        let ghost s0 = *self;
        let mut visited: Vec<TypeId> = Vec::new();
        let mut cands: Vec<TypeId> = Vec::new();
        self.collect_trait_object_hierarchy_candidates(cn, gi, &mut visited, &mut cands);
        proof {
            old(self).lemma_grows_trans(s0, *self);
            lemma_map_valid_grow(s0.ctx.types, self.ctx.types, map@);
        }
        let mut k: usize = 0;
        while k < cands.len()
            invariant
                old(self).wf(),
                old(self).grows_to(*self),
                self.wf(),
                self.tvars_valid(),
                map_valid(self.ctx.types, map@),
                k <= cands@.len(),
                !direct,
                direct == (gi == ci && ga@.len() == ca@.len() && (infer_all(
                    old(self).ctx.types,
                    old(self).type_vars@,
                    ga@,
                    ca@,
                    0,
                    old(map)@,
                    fuel as nat,
                ) matches Some((true, _)))),
            decreases cands@.len() - k,
        {
            let cand = cands[k];
            if cand != cn && (cand as usize) < self.ctx.types.num_types() {
                let cargs = match self.ctx.types.get(cand) {
                    TypeKind::TraitObject(_, a) => Some(copy_ids(a)),
                    _ => None,
                };
                if let Some(cargs) = cargs {
                    if ga.len() == cargs.len() {
                        let ghost before = *self;
                        let mut local = copy_pairs(map);
                        let ok = self.infer_each(ga, &cargs, &mut local, fuel);
                        proof {
                            old(self).lemma_grows_trans(before, *self);
                        }
                        if ok {
                            *map = local;
                            return true;
                        }
                        proof {
                            lemma_map_valid_grow(before.ctx.types, self.ctx.types, map@);
                        }
                    }
                }
            }
            k = k + 1;
        }
        false
    }

    fn infer_each(&mut self, gs: &Vec<TypeId>, cs: &Vec<TypeId>, map: &mut Vec<(SymbolId, TypeId)>, fuel: u128) -> (r:
        bool)
        requires
            old(self).wf(),
            old(self).tvars_valid(),
            map_valid(old(self).ctx.types, old(map)@),
            gs@.len() == cs@.len(),
        ensures
            old(self).grows_to(*final(self)),
            final(self).tvars_valid(),
            map_valid(final(self).ctx.types, final(map)@),
            infer_all(old(self).ctx.types, old(self).type_vars@, gs@, cs@, 0, old(map)@, fuel as nat) matches Some(
                (ok, m),
            ) ==> r == ok && final(map)@ == m && *final(self) == *old(self),
        decreases fuel, gs@.len() + 1,
    {
        let ghost s0 = *self;
        let ghost spec0 = infer_all(s0.ctx.types, s0.type_vars@, gs@, cs@, 0, map@, fuel as nat);
        proof {
            lemma_prefix_refl(self.ctx.types.kinds());
        }
        let mut i: usize = 0;
        while i < gs.len()
            invariant
                s0 == *old(self),
                s0.wf(),
                s0.tvars_valid(),
                s0.grows_to(*self),
                self.tvars_valid(),
                map_valid(self.ctx.types, map@),
                gs@.len() == cs@.len(),
                i <= gs@.len(),
                spec0 == infer_all(s0.ctx.types, s0.type_vars@, gs@, cs@, 0, old(map)@, fuel as nat),
                spec0 is Some ==> *self == s0 && spec0 == infer_all(
                    s0.ctx.types,
                    s0.type_vars@,
                    gs@,
                    cs@,
                    i as int,
                    map@,
                    fuel as nat,
                ),
            decreases gs@.len() - i,
        {
            let ghost before = *self;
            let ok = self.infer_with(gs[i], cs[i], map, fuel);
            proof {
                s0.lemma_grows_trans(before, *self);
            }
            if !ok {
                return false;
            }
            i = i + 1;
        }
        true
    }
}

} // verus!
