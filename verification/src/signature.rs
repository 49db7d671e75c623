//! The signature a call to a function definition is checked against: its
//! generic parameters taken from the explicit arguments or inferred from the
//! receiver and the argument types, its `where` bounds checked, and the
//! signature instantiated.

use vstd::prelude::*;
use crate::types::{TypeId, SymbolId, DefId, TypeKind, TypeRegistry, children_below, ids_below, TY_ERROR};
use crate::context::{Def, Diagnostic, DiagCode};
use crate::ast::Span;
use crate::checker::{ExprChecker, tv_chain, lemma_tv_chain_valid};
use crate::coercion::{unify_spec, unify_all};
use crate::coerce::fn_arg_map;
use crate::subst::{copy_ids, map_valid, map_in_registry, subst_rel, lemma_prefix_kind};
use crate::traits::{lemma_prefix_refl, lemma_tv_chain_grow};
use crate::eval::lemma_prefix_trans;
use crate::eval_state::{find_entry, find_in_scope};
use crate::lookup::{interned_id, first_of, lemma_first_grow};
use crate::ast::Expr;

verus! {

/// Unifying a generic type with a concrete one gives the same answer once
/// the registry has grown.
pub proof fn lemma_unify_grow(
    t1: TypeRegistry,
    t2: TypeRegistry,
    tvs: Seq<Option<TypeId>>,
    g: TypeId,
    c: TypeId,
    map: Seq<(SymbolId, TypeId)>,
    fuel: nat,
)
    requires
        t1.wf(),
        t1.kinds().is_prefix_of(t2.kinds()),
        t1.valid(g),
        t1.valid(c),
        forall|v: int| 0 <= v < tvs.len() ==> (#[trigger] tvs[v] matches Some(x) ==> t1.valid(x)),
    ensures
        unify_spec(t2, tvs, g, c, map, fuel) == unify_spec(t1, tvs, g, c, map, fuel),
    decreases fuel, 0int,
{
    lemma_tv_chain_grow(t1, t2, tvs, g, tvs.len());
    lemma_tv_chain_grow(t1, t2, tvs, c, tvs.len());
    lemma_tv_chain_valid(t1, tvs, g, tvs.len());
    lemma_tv_chain_valid(t1, tvs, c, tvs.len());
    let gn = tv_chain(t1, tvs, g, tvs.len());
    let cn = tv_chain(t1, tvs, c, tvs.len());
    lemma_prefix_kind(t1, t2, gn);
    lemma_prefix_kind(t1, t2, cn);
    assert(children_below(t1.kinds()[gn as int], gn as int));
    assert(children_below(t1.kinds()[cn as int], cn as int));
    if fuel > 0 {
        let f = (fuel - 1) as nat;
        match (t1.kind(gn), t1.kind(cn)) {
            (TypeKind::Param(_), _) => {},
            (TypeKind::Pointer { elem: ge, .. }, TypeKind::Pointer { elem: ce, .. })
            | (TypeKind::VolatilePtr { elem: ge, .. }, TypeKind::VolatilePtr { elem: ce, .. })
            | (TypeKind::Slice { elem: ge, .. }, TypeKind::Slice { elem: ce, .. })
            | (TypeKind::ArrayInfer { elem: ge, .. }, TypeKind::ArrayInfer { elem: ce, .. })
            | (TypeKind::Array { elem: ge, .. }, TypeKind::Array { elem: ce, .. }) => {
                lemma_unify_grow(t1, t2, tvs, ge, ce, map, f);
            },
            (TypeKind::Def(_, ga), TypeKind::Def(_, ca))
            | (TypeKind::Enum(_, ga), TypeKind::Enum(_, ca))
            | (TypeKind::TraitObject(_, ga), TypeKind::TraitObject(_, ca)) => {
                if ga@.len() == ca@.len() {
                    lemma_unify_all_grow(t1, t2, tvs, ga@, ca@, 0, map, f);
                }
            },
            (
                TypeKind::ClosureInterface { params: gp, ret: gr },
                TypeKind::ClosureInterface { params: cp, ret: cr },
            ) => {
                if gp@.len() == cp@.len() {
                    lemma_unify_all_grow(t1, t2, tvs, gp@, cp@, 0, map, f);
                    let (_, m) = unify_all(t1, tvs, gp@, cp@, 0, map, f);
                    lemma_unify_grow(t1, t2, tvs, gr, cr, m, f);
                }
            },
            (
                TypeKind::AnonymousState { captures: gc, params: gp, ret: gr },
                TypeKind::AnonymousState { captures: cc, params: cp, ret: cr },
            ) => {
                if gc@.len() == cc@.len() && gp@.len() == cp@.len() {
                    lemma_unify_all_grow(t1, t2, tvs, gc@, cc@, 0, map, f);
                    let (_, m1) = unify_all(t1, tvs, gc@, cc@, 0, map, f);
                    lemma_unify_all_grow(t1, t2, tvs, gp@, cp@, 0, m1, f);
                    let (_, m2) = unify_all(t1, tvs, gp@, cp@, 0, m1, f);
                    lemma_unify_grow(t1, t2, tvs, gr, cr, m2, f);
                }
            },
            _ => {},
        }
    }
}

/// As `lemma_unify_grow`, for lists of types.
pub proof fn lemma_unify_all_grow(
    t1: TypeRegistry,
    t2: TypeRegistry,
    tvs: Seq<Option<TypeId>>,
    gs: Seq<TypeId>,
    cs: Seq<TypeId>,
    i: int,
    map: Seq<(SymbolId, TypeId)>,
    fuel: nat,
)
    requires
        t1.wf(),
        t1.kinds().is_prefix_of(t2.kinds()),
        gs.len() == cs.len(),
        ids_below(gs, t1.len() as int),
        ids_below(cs, t1.len() as int),
        forall|v: int| 0 <= v < tvs.len() ==> (#[trigger] tvs[v] matches Some(x) ==> t1.valid(x)),
    ensures
        unify_all(t2, tvs, gs, cs, i, map, fuel) == unify_all(t1, tvs, gs, cs, i, map, fuel),
    decreases fuel, gs.len() - i,
{
    if 0 <= i < gs.len() {
        lemma_unify_grow(t1, t2, tvs, gs[i], cs[i], map, fuel);
        let (_, m) = unify_spec(t1, tvs, gs[i], cs[i], map, fuel);
        lemma_unify_all_grow(t1, t2, tvs, gs, cs, i + 1, m, fuel);
    }
}

/// Unifying keeps a map of types of the registry such a map.
pub proof fn lemma_unify_map_valid(
    types: TypeRegistry,
    tvs: Seq<Option<TypeId>>,
    g: TypeId,
    c: TypeId,
    map: Seq<(SymbolId, TypeId)>,
    fuel: nat,
)
    requires
        types.wf(),
        types.valid(g),
        types.valid(c),
        map_valid(types, map),
        forall|v: int| 0 <= v < tvs.len() ==> (#[trigger] tvs[v] matches Some(x) ==> types.valid(x)),
    ensures
        map_valid(types, unify_spec(types, tvs, g, c, map, fuel).1),
    decreases fuel, 0int,
{
    lemma_tv_chain_valid(types, tvs, g, tvs.len());
    lemma_tv_chain_valid(types, tvs, c, tvs.len());
    let gn = tv_chain(types, tvs, g, tvs.len());
    let cn = tv_chain(types, tvs, c, tvs.len());
    assert(children_below(types.kinds()[gn as int], gn as int));
    assert(children_below(types.kinds()[cn as int], cn as int));
    if fuel > 0 {
        let f = (fuel - 1) as nat;
        match (types.kind(gn), types.kind(cn)) {
            (TypeKind::Param(name), _) => {
                let m2 = map.push((name, c));
                assert forall|j: int| 0 <= j < m2.len() implies types.valid(#[trigger] m2[j].1) by {
                    if j < map.len() {
                        assert(m2[j] == map[j]);
                    }
                }
            },
            (TypeKind::Pointer { elem: ge, .. }, TypeKind::Pointer { elem: ce, .. })
            | (TypeKind::VolatilePtr { elem: ge, .. }, TypeKind::VolatilePtr { elem: ce, .. })
            | (TypeKind::Slice { elem: ge, .. }, TypeKind::Slice { elem: ce, .. })
            | (TypeKind::ArrayInfer { elem: ge, .. }, TypeKind::ArrayInfer { elem: ce, .. })
            | (TypeKind::Array { elem: ge, .. }, TypeKind::Array { elem: ce, .. }) => {
                lemma_unify_map_valid(types, tvs, ge, ce, map, f);
            },
            (TypeKind::Def(_, ga), TypeKind::Def(_, ca))
            | (TypeKind::Enum(_, ga), TypeKind::Enum(_, ca))
            | (TypeKind::TraitObject(_, ga), TypeKind::TraitObject(_, ca)) => {
                if ga@.len() == ca@.len() {
                    lemma_unify_all_map_valid(types, tvs, ga@, ca@, 0, map, f);
                }
            },
            (
                TypeKind::ClosureInterface { params: gp, ret: gr },
                TypeKind::ClosureInterface { params: cp, ret: cr },
            ) => {
                if gp@.len() == cp@.len() {
                    lemma_unify_all_map_valid(types, tvs, gp@, cp@, 0, map, f);
                    let (_, m) = unify_all(types, tvs, gp@, cp@, 0, map, f);
                    lemma_unify_map_valid(types, tvs, gr, cr, m, f);
                }
            },
            (
                TypeKind::AnonymousState { captures: gc, params: gp, ret: gr },
                TypeKind::AnonymousState { captures: cc, params: cp, ret: cr },
            ) => {
                if gc@.len() == cc@.len() && gp@.len() == cp@.len() {
                    lemma_unify_all_map_valid(types, tvs, gc@, cc@, 0, map, f);
                    let (_, m1) = unify_all(types, tvs, gc@, cc@, 0, map, f);
                    lemma_unify_all_map_valid(types, tvs, gp@, cp@, 0, m1, f);
                    let (_, m2) = unify_all(types, tvs, gp@, cp@, 0, m1, f);
                    lemma_unify_map_valid(types, tvs, gr, cr, m2, f);
                }
            },
            _ => {},
        }
    }
}

proof fn lemma_unify_all_map_valid(
    types: TypeRegistry,
    tvs: Seq<Option<TypeId>>,
    gs: Seq<TypeId>,
    cs: Seq<TypeId>,
    i: int,
    map: Seq<(SymbolId, TypeId)>,
    fuel: nat,
)
    requires
        types.wf(),
        gs.len() == cs.len(),
        ids_below(gs, types.len() as int),
        ids_below(cs, types.len() as int),
        map_valid(types, map),
        forall|v: int| 0 <= v < tvs.len() ==> (#[trigger] tvs[v] matches Some(x) ==> types.valid(x)),
    ensures
        map_valid(types, unify_all(types, tvs, gs, cs, i, map, fuel).1),
    decreases fuel, gs.len() - i,
{
    if 0 <= i < gs.len() {
        lemma_unify_map_valid(types, tvs, gs[i], cs[i], map, fuel);
        let (_, m) = unify_spec(types, tvs, gs[i], cs[i], map, fuel);
        lemma_unify_all_map_valid(types, tvs, gs, cs, i + 1, m, fuel);
    }
}

/// The map unifying each parameter `params[i + offset]` with the resolved
/// type of argument `i`, from argument `i` on; an argument without a
/// parameter, or whose type resolves to the error type, binds nothing.
pub open spec fn unify_args(
    types: TypeRegistry,
    tvs: Seq<Option<TypeId>>,
    params: Seq<TypeId>,
    offset: int,
    arg_tys: Seq<TypeId>,
    i: int,
    map: Seq<(SymbolId, TypeId)>,
    fuel: nat,
) -> Seq<(SymbolId, TypeId)>
    decreases arg_tys.len() - i,
{
    if i < 0 || i >= arg_tys.len() {
        map
    } else {
        let a = tv_chain(types, tvs, arg_tys[i], tvs.len());
        let m = if 0 <= i + offset < params.len() && a != TY_ERROR {
            unify_spec(types, tvs, params[i + offset], a, map, fuel).1
        } else {
            map
        };
        unify_args(types, tvs, params, offset, arg_tys, i + 1, m, fuel)
    }
}

proof fn lemma_unify_args_grow(
    t1: TypeRegistry,
    t2: TypeRegistry,
    tvs: Seq<Option<TypeId>>,
    params: Seq<TypeId>,
    offset: int,
    arg_tys: Seq<TypeId>,
    i: int,
    map: Seq<(SymbolId, TypeId)>,
    fuel: nat,
)
    requires
        t1.wf(),
        t1.kinds().is_prefix_of(t2.kinds()),
        ids_below(params, t1.len() as int),
        ids_below(arg_tys, t1.len() as int),
        map_valid(t1, map),
        forall|v: int| 0 <= v < tvs.len() ==> (#[trigger] tvs[v] matches Some(x) ==> t1.valid(x)),
    ensures
        unify_args(t2, tvs, params, offset, arg_tys, i, map, fuel) == unify_args(
            t1,
            tvs,
            params,
            offset,
            arg_tys,
            i,
            map,
            fuel,
        ),
        map_valid(t1, unify_args(t1, tvs, params, offset, arg_tys, i, map, fuel)),
    decreases arg_tys.len() - i,
{
    if 0 <= i < arg_tys.len() {
        lemma_tv_chain_grow(t1, t2, tvs, arg_tys[i], tvs.len());
        lemma_tv_chain_valid(t1, tvs, arg_tys[i], tvs.len());
        let a = tv_chain(t1, tvs, arg_tys[i], tvs.len());
        let m = if 0 <= i + offset < params.len() && a != TY_ERROR {
            lemma_unify_grow(t1, t2, tvs, params[i + offset], a, map, fuel);
            lemma_unify_map_valid(t1, tvs, params[i + offset], a, map, fuel);
            unify_spec(t1, tvs, params[i + offset], a, map, fuel).1
        } else {
            map
        };
        lemma_unify_args_grow(t1, t2, tvs, params, offset, arg_tys, i + 1, m, fuel);
    }
}

/// The immutable counterpart a mutable pointer receiver (of kind `recv`) is
/// matched as where the receiver parameter (of kind `expected`) is an
/// immutable pointer of the same sort.
pub open spec fn stripped_receiver_kind(expected: TypeKind, recv: TypeKind) -> Option<TypeKind> {
    match (expected, recv) {
        (TypeKind::Pointer { is_mut: false, .. }, TypeKind::Pointer { is_mut: true, elem }) => Some(
            TypeKind::Pointer { is_mut: false, elem },
        ),
        (TypeKind::VolatilePtr { is_mut: false, .. }, TypeKind::VolatilePtr { is_mut: true, elem }) => Some(
            TypeKind::VolatilePtr { is_mut: false, elem },
        ),
        _ => None,
    }
}

/// The parameter types of a function type.
pub open spec fn sig_params(k: TypeKind) -> Seq<TypeId> {
    match k {
        TypeKind::Function { params, .. } => params@,
        _ => Seq::empty(),
    }
}

/// The type of each expression.
pub open spec fn expr_types(args: Seq<Expr>) -> Seq<TypeId> {
    Seq::new(args.len(), |i: int| args[i].ty)
}

/// The type of each argument that has a parameter, among `n_params`
/// parameters of which the first `off` take no argument.
pub open spec fn arg_types_seq(args: Seq<Expr>, n_params: int, off: int) -> Seq<Option<TypeId>> {
    Seq::new(
        args.len(),
        |i: int|
            if i + off < n_params {
                Some(args[i].ty)
            } else {
                None
            },
    )
}

/// Each of `generics` is bound in `m`.
pub open spec fn all_bound(m: Seq<(SymbolId, TypeId)>, generics: Seq<SymbolId>) -> bool {
    forall|j: int| 0 <= j < generics.len() ==> (#[trigger] find_entry(m, generics[j])) is Some
}

/// The type each generic parameter of `generics` is bound to in `m`.
pub open spec fn bound_args(m: Seq<(SymbolId, TypeId)>, generics: Seq<SymbolId>) -> Seq<TypeId> {
    Seq::new(generics.len(), |j: int| find_entry(m, generics[j]).unwrap())
}

/// A copy of a list of `where` clauses.
fn copy_clauses(v: &Vec<(TypeId, Vec<TypeId>)>) -> (r: Vec<(TypeId, Vec<TypeId>)>)
    ensures
        r@.len() == v@.len(),
        forall|i: int| 0 <= i < v@.len() ==> (#[trigger] r@[i]).0 == v@[i].0 && r@[i].1@ == v@[i].1@,
{
    let mut r: Vec<(TypeId, Vec<TypeId>)> = Vec::new();
    let mut i: usize = 0;
    while i < v.len()
        invariant
            i <= v@.len(),
            r@.len() == i,
            forall|j: int| 0 <= j < i ==> (#[trigger] r@[j]).0 == v@[j].0 && r@[j].1@ == v@[j].1@,
        decreases v@.len() - i,
    {
        r.push((v[i].0, copy_ids(&v[i].1)));
        i = i + 1;
    }
    r
}

/// A map pairing generic parameters with types of the registry is valid in
/// it.
pub proof fn lemma_fn_arg_map_valid(types: TypeRegistry, generics: Seq<SymbolId>, args: Seq<TypeId>)
    requires
        ids_below(args, types.len() as int),
    ensures
        map_valid(types, fn_arg_map(generics, args)),
{
    let m = fn_arg_map(generics, args);
    assert forall|j: int| 0 <= j < m.len() implies types.valid(#[trigger] m[j].1) by {
        let n = m.len() as int;
        assert(m[j].1 == args[n - 1 - j]);
    }
}

impl ExprChecker {
    /// The diagnostics after are those before and one of `code` at `span`.
    pub open spec fn reported(self, after: Self, code: DiagCode, span: Span) -> bool {
        after.ctx.diags@ == self.ctx.diags@.push(Diagnostic { code, span })
    }

    /// The receiver type a method's generic parameters are inferred from,
    /// for the receiver parameter `expected_param`.
    pub open spec fn stripped_receiver(self, expected_param: TypeId, receiver_ty: TypeId) -> TypeId {
        let r = self.resolved(receiver_ty);
        match stripped_receiver_kind(self.kind_of(expected_param), self.ctx.types.kind(r)) {
            Some(k) => interned_id(self.ctx.types, k),
            None => r,
        }
    }

    /// The generic parameters a call binds: `explicit`, extended by unifying
    /// the resolved first parameter with the receiver `recv`, where there is
    /// one, and then each further parameter with its argument's type.
    pub open spec fn call_generic_map(
        self,
        explicit: Seq<(SymbolId, TypeId)>,
        params: Seq<TypeId>,
        recv: Option<TypeId>,
        arg_tys: Seq<TypeId>,
        fuel: nat,
    ) -> Seq<(SymbolId, TypeId)> {
        let types = self.ctx.types;
        let tvs = self.type_vars@;
        match recv {
            Some(s) => unify_args(
                types,
                tvs,
                params,
                1,
                arg_tys,
                0,
                unify_spec(types, tvs, self.resolved(params[0]), s, explicit, fuel).1,
                fuel,
            ),
            None => unify_args(types, tvs, params, 0, arg_tys, 0, explicit, fuel),
        }
    }

    /// What deducing the signature of a call whose generic arguments are
    /// inferred gives, `after` being the checker once it has: the type of
    /// each argument that has a parameter; where the registry has room, the
    /// instantiated callee and signature when every generic parameter is
    /// bound, and otherwise the error type and a report.
    pub open spec fn inferred(
        self,
        after: Self,
        def_id: DefId,
        generics: Seq<SymbolId>,
        explicit: Seq<TypeId>,
        raw_sig: TypeId,
        params: Seq<TypeId>,
        args: Seq<Expr>,
        is_method: bool,
        receiver_ty: TypeId,
        span: Span,
        r: (TypeId, Option<TypeId>, Option<Vec<Option<TypeId>>>),
    ) -> bool {
        let off: int = if is_method {
            1
        } else {
            0
        };
        &&& r.2 matches Some(v) && v@ == arg_types_seq(args, params.len() as int, off)
        &&& after.ctx.types.len() < u32::MAX ==> {
            let recv = if is_method {
                Some(after.stripped_receiver(params[0], receiver_ty))
            } else {
                None
            };
            let m = after.call_generic_map(
                fn_arg_map(generics, explicit),
                params,
                recv,
                expr_types(args),
                self.unify_depth(),
            );
            let all = all_bound(m, generics);
            &&& (r.1 is Some <==> all)
            &&& !all ==> r.0 == TY_ERROR && self.reported(after, DiagCode::CannotInferGenerics, span)
            &&& r.1 matches Some(callee) ==> {
                &&& after.ctx.types.valid(callee)
                &&& after.ctx.types.kind(callee) matches TypeKind::FnDef(d, a) && d == def_id && a@ == bound_args(
                    m,
                    generics,
                )
                &&& subst_rel(after.ctx.types, fn_arg_map(generics, bound_args(m, generics)), raw_sig, r.0)
                &&& self.ctx.diags@.is_prefix_of(after.ctx.diags@)
                &&& forall|k: int|
                    self.ctx.diags@.len() <= k < after.ctx.diags@.len() ==> (#[trigger] after.ctx.diags@[k])
                        == (Diagnostic { code: DiagCode::BoundNotSatisfied, span })
            }
        }
    }

    /// What deducing the signature of a call of the function definition type
    /// `FnDef(def_id, explicit)` gives, `after` being the checker once it has.
    pub open spec fn deduced(
        self,
        after: Self,
        def_id: DefId,
        explicit: Seq<TypeId>,
        args: Seq<Expr>,
        is_method: bool,
        receiver_ty: TypeId,
        span: Span,
        user_explicit: bool,
        r: (TypeId, Option<TypeId>, Option<Vec<Option<TypeId>>>),
    ) -> bool {
        let err = r.0 == TY_ERROR && r.1 is None && r.2 is None;
        if def_id >= self.ctx.defs@.len() || !(self.ctx.defs@[def_id as int] is Function) {
            err && self.reported(after, DiagCode::FnDefNotFunction, span)
        } else {
            match self.ctx.defs@[def_id as int] {
                Def::Function(fd) => {
                    let g = fd.generics@;
                    match fd.sig {
                        None => err && self.reported(after, DiagCode::FnDefWithoutSignature, span),
                        Some(raw_sig) => if g.len() == 0 {
                            r.0 == raw_sig && r.1 is None && r.2 is None && after.ctx.diags == self.ctx.diags
                        } else if explicit.len() > g.len() {
                            err && self.reported(after, DiagCode::TooManyGenericArgs, span)
                        } else if explicit.len() == g.len() {
                            &&& r.1 is None
                            &&& r.2 is None
                            &&& after.ctx.diags == self.ctx.diags
                            &&& subst_rel(after.ctx.types, fn_arg_map(g, explicit), raw_sig, r.0) || (r.0
                                == TY_ERROR && after.ctx.types.len() >= u32::MAX)
                        } else if user_explicit && explicit.len() > 0 {
                            err && self.reported(after, DiagCode::GenericArgCountMismatch, span)
                        } else if !self.ctx.types.valid(raw_sig) || !(self.ctx.types.kind(raw_sig) is Function) {
                            err && self.reported(after, DiagCode::FnDefSignatureNotFunction, span)
                        } else if sig_params(self.ctx.types.kind(raw_sig)).len() == 0 && is_method {
                            err && self.reported(after, DiagCode::MethodWithoutReceiver, span)
                        } else {
                            self.inferred(
                                after,
                                def_id,
                                g,
                                explicit,
                                raw_sig,
                                sig_params(self.ctx.types.kind(raw_sig)),
                                args,
                                is_method,
                                receiver_ty,
                                span,
                                r,
                            )
                        },
                    }
                },
                _ => false,
            }
        }
    }

    /// Reports `code` at `span`.
    fn report_one(&mut self, code: DiagCode, span: Span)
        requires
            old(self).wf(),
        ensures
            old(self).reported(*final(self), code, span),
            old(self).same_but_diags(*final(self)),
            old(self).grows_reporting(*final(self)),
    {
        self.report(true, code, span);
        proof {
            assert(old(self).ctx.diags@ + crate::checker::diag_if(true, Diagnostic { code, span }) =~= old(
                self,
            ).ctx.diags@.push(Diagnostic { code, span }));
            assert(old(self).ctx.diags@.is_prefix_of(self.ctx.diags@)) by {
                assert(old(self).ctx.diags@ =~= self.ctx.diags@.subrange(0, old(self).ctx.diags@.len() as int));
            }
            old(self).lemma_reporting_from(*self);
        }
    }

    /// The definition `def_id` is a function with `where` clauses.
    pub open spec fn has_where_clauses(self, def_id: DefId) -> bool {
        def_id < self.ctx.defs@.len() && (self.ctx.defs@[def_id as int] matches Def::Function(fd)
            && fd.where_clauses@.len() > 0)
    }

    /// The map from each generic parameter to the argument at its position;
    /// `None` where there are no parameters or no arguments.
    pub fn build_generic_arg_map(&self, generics: &Vec<SymbolId>, generic_args: &Vec<TypeId>) -> (r: Option<
        Vec<(SymbolId, TypeId)>,
    >)
        ensures
            r is None <==> generics@.len() == 0 || generic_args@.len() == 0,
            r matches Some(m) ==> m@ == fn_arg_map(generics@, generic_args@),
    {
        if generics.len() == 0 || generic_args.len() == 0 {
            return None;
        }
        let n = if generics.len() < generic_args.len() {
            generics.len()
        } else {
            generic_args.len()
        };
        let mut map: Vec<(SymbolId, TypeId)> = Vec::new();
        let mut k: usize = n;
        while k > 0
            invariant
                k <= n,
                n == (if generics@.len() < generic_args@.len() {
                    generics@.len()
                } else {
                    generic_args@.len()
                }),
                map@ == fn_arg_map(generics@, generic_args@).subrange(0, (n - k) as int),
            decreases k,
        {
            k = k - 1;
            map.push((generics[k], generic_args[k]));
            assert(map@ =~= fn_arg_map(generics@, generic_args@).subrange(0, (n - k) as int));
        }
        assert(map@ =~= fn_arg_map(generics@, generic_args@));
        Some(map)
    }

    /// The signature `raw_sig` with each generic parameter replaced by the
    /// argument at its position; `raw_sig` itself where there are no
    /// parameters or no arguments, and the error type where the registry has
    /// no room for the instantiated types.
    pub fn instantiate_call_signature(
        &mut self,
        raw_sig: TypeId,
        generics: &Vec<SymbolId>,
        generic_args: &Vec<TypeId>,
    ) -> (r: TypeId)
        requires
            old(self).wf(),
            old(self).tvars_valid(),
            ids_below(generic_args@, old(self).ctx.types.len() as int),
        ensures
            old(self).grows_to(*final(self)),
            final(self).tvars_valid(),
            generics@.len() == 0 || generic_args@.len() == 0 ==> r == raw_sig,
            generics@.len() > 0 && generic_args@.len() > 0 ==> subst_rel(
                final(self).ctx.types,
                fn_arg_map(generics@, generic_args@),
                raw_sig,
                r,
            ) || (r == TY_ERROR && final(self).ctx.types.len() >= u32::MAX),
    {
        proof {
            lemma_prefix_refl(self.ctx.types.kinds());
        }
        let map = match self.build_generic_arg_map(generics, generic_args) {
            Some(m) => m,
            None => {
                return raw_sig;
            },
        };
        proof {
            lemma_fn_arg_map_valid(self.ctx.types, generics@, generic_args@);
        }
        let ghost s0 = *self;
        let r = self.subst_in(&map, raw_sig);
        proof {
            s0.lemma_grows(*self, 0);
        }
        match r {
            Some(x) => x,
            None => TY_ERROR,
        }
    }

    /// Checks the `where` clauses of the function `def_id` with its generic
    /// parameters replaced by `arg_tys`: each bound that an instantiated
    /// clause type is not shown to implement is reported at `span`.
    pub fn check_generic_bounds(&mut self, span: Span, def_id: DefId, generics: &Vec<SymbolId>, arg_tys: &Vec<TypeId>)
        requires
            old(self).wf(),
            old(self).tvars_valid(),
            ids_below(arg_tys@, old(self).ctx.types.len() as int),
        ensures
            old(self).grows_reporting(*final(self)),
            final(self).tvars_valid(),
            forall|k: int|
                old(self).ctx.diags@.len() <= k < final(self).ctx.diags@.len() ==> (#[trigger] final(self).ctx.diags@[k])
                    == (Diagnostic { code: DiagCode::BoundNotSatisfied, span }),
            !old(self).has_where_clauses(def_id) ==> final(self).ctx.diags == old(self).ctx.diags,
            final(self).ctx.diags@.len() <= old(self).ctx.diags@.len() + where_bound_total(old(self).ctx, def_id),
            (generics@.len() == 0 || arg_tys@.len() == 0) && old(self).active_bounds@.len() == 0 && old(
                self,
            ).impls@.len() == 0 ==> final(self).ctx.diags@.len() == old(self).ctx.diags@.len() + where_bound_count(
                old(self).ctx,
                def_id,
            ),
    {
        proof {
            lemma_prefix_refl(self.ctx.types.kinds());
            lemma_prefix_refl(self.ctx.diags@);
        }
        if (def_id as usize) >= self.ctx.defs.len() {
            return ;
        }
        let clauses = match &self.ctx.defs[def_id as usize] {
            Def::Function(fd) => copy_clauses(&fd.where_clauses),
            _ => {
                return ;
            },
        };
        if clauses.len() == 0 {
            return ;
        }
        let map = match self.build_generic_arg_map(generics, arg_tys) {
            Some(m) => m,
            None => Vec::new(),
        };
        proof {
            if let Def::Function(fd) = self.ctx.defs@[def_id as int] {
                lemma_checked_clauses_same(clauses@, fd.where_clauses@, clauses@.len() as int);
            }
        }
        let ghost exact = map@.len() == 0 && old(self).active_bounds@.len() == 0 && old(self).impls@.len() == 0;
        proof {
            lemma_fn_arg_map_valid(self.ctx.types, generics@, arg_tys@);
        }
        let mut c: usize = 0;
        while c < clauses.len()
            invariant
                old(self).wf(),
                old(self).tvars_valid(),
                old(self).grows_reporting(*self),
                self.tvars_valid(),
                map_valid(self.ctx.types, map@),
                c <= clauses@.len(),
                forall|k: int|
                    old(self).ctx.diags@.len() <= k < self.ctx.diags@.len() ==> #[trigger] self.ctx.diags@[k]
                        == (Diagnostic { code: DiagCode::BoundNotSatisfied, span }),
                where_bound_count(old(self).ctx, def_id) == checked_clauses(clauses@, clauses@.len() as int),
                where_bound_total(old(self).ctx, def_id) == clause_bounds(clauses@, clauses@.len() as int),
                exact == (map@.len() == 0 && old(self).active_bounds@.len() == 0 && old(self).impls@.len() == 0),
                self.ctx.diags@.len() <= old(self).ctx.diags@.len() + clause_bounds(clauses@, c as int),
                exact ==> self.ctx.diags@.len() == old(self).ctx.diags@.len() + checked_clauses(clauses@, c as int),
            decreases clauses@.len() - c,
        {
            let ghost b0 = *self;
            let target = match self.subst_in(&map, clauses[c].0) {
                Some(x) => x,
                None => TY_ERROR,
            };
            proof {
                b0.lemma_grows(*self, 0);
                b0.lemma_reporting_from(*self);
                old(self).lemma_reporting_trans(b0, *self);
                crate::infer::lemma_map_valid_grow(b0.ctx.types, self.ctx.types, map@);
            }
            let bounds = copy_ids(&clauses[c].1);
            let mut b: usize = 0;
            while b < bounds.len()
                invariant
                    old(self).wf(),
                    old(self).tvars_valid(),
                    old(self).grows_reporting(*self),
                    self.tvars_valid(),
                    map_valid(self.ctx.types, map@),
                    b <= bounds@.len(),
                    forall|k: int|
                        old(self).ctx.diags@.len() <= k < self.ctx.diags@.len() ==> #[trigger] self.ctx.diags@[k]
                            == (Diagnostic { code: DiagCode::BoundNotSatisfied, span }),
                    c < clauses@.len(),
                    bounds@ == clauses@[c as int].1@,
                    exact ==> target == clauses@[c as int].0,
                    exact == (map@.len() == 0 && old(self).active_bounds@.len() == 0 && old(self).impls@.len() == 0),
                    self.ctx.diags@.len() <= old(self).ctx.diags@.len() + clause_bounds(clauses@, c as int) + b,
                    exact ==> self.ctx.diags@.len() == old(self).ctx.diags@.len() + checked_clauses(clauses@, c as int)
                        + checked_bounds(target, bounds@, b as int),
                decreases bounds@.len() - b,
            {
                let ghost s1 = *self;
                let bound = match self.subst_in(&map, bounds[b]) {
                    Some(x) => x,
                    None => TY_ERROR,
                };
                proof {
                    s1.lemma_grows(*self, 0);
                    s1.lemma_reporting_from(*self);
                    old(self).lemma_reporting_trans(s1, *self);
                    crate::infer::lemma_map_valid_grow(s1.ctx.types, self.ctx.types, map@);
                }
                if target != TY_ERROR && bound != TY_ERROR {
                    let ghost s2 = *self;
                    let ok = self.check_trait_impl(target, bound);
                    proof {
                        s2.lemma_grows(*self, 0);
                        s2.lemma_reporting_from(*self);
                        old(self).lemma_reporting_trans(s2, *self);
                        crate::infer::lemma_map_valid_grow(s2.ctx.types, self.ctx.types, map@);
                    }
                    if !ok {
                        let ghost s3 = *self;
                        self.report_one(DiagCode::BoundNotSatisfied, span);
                        proof {
                            assert(self.ctx.diags@ =~= s3.ctx.diags@.push(
                                Diagnostic { code: DiagCode::BoundNotSatisfied, span },
                            ));
                            lemma_prefix_refl(self.ctx.types.kinds());
                            s3.lemma_reporting_from(*self);
                            old(self).lemma_reporting_trans(s3, *self);
                        }
                    }
                }
                b = b + 1;
            }
            c = c + 1;
        }
    }
}

/// The bounds among the first `n` of `bs` that a where clause on `t` checks:
/// those where neither side is the error type.
pub open spec fn checked_bounds(t: TypeId, bs: Seq<TypeId>, n: int) -> nat
    decreases n,
{
    if n <= 0 {
        0
    } else {
        checked_bounds(t, bs, n - 1) + (if t != TY_ERROR && bs[n - 1] != TY_ERROR {
            1nat
        } else {
            0nat
        })
    }
}

/// The bounds that the first `n` where clauses of `cs` check.
pub open spec fn checked_clauses(cs: Seq<(TypeId, Vec<TypeId>)>, n: int) -> nat
    decreases n,
{
    if n <= 0 {
        0
    } else {
        checked_clauses(cs, n - 1) + checked_bounds(cs[n - 1].0, cs[n - 1].1@, cs[n - 1].1@.len() as int)
    }
}

/// The bounds that the where clauses of the function `def_id` check, taken
/// as written.
pub open spec fn where_bound_count(ctx: crate::context::SemaContext, def_id: DefId) -> nat {
    if def_id < ctx.defs@.len() {
        match ctx.defs@[def_id as int] {
            Def::Function(fd) => checked_clauses(fd.where_clauses@, fd.where_clauses@.len() as int),
            _ => 0,
        }
    } else {
        0
    }
}

/// The number of bounds in the first `n` where clauses of `cs`.
pub open spec fn clause_bounds(cs: Seq<(TypeId, Vec<TypeId>)>, n: int) -> nat
    decreases n,
{
    if n <= 0 {
        0
    } else {
        clause_bounds(cs, n - 1) + cs[n - 1].1@.len()
    }
}

/// The number of bounds in the where clauses of the function `def_id`.
pub open spec fn where_bound_total(ctx: crate::context::SemaContext, def_id: DefId) -> nat {
    if def_id < ctx.defs@.len() {
        match ctx.defs@[def_id as int] {
            Def::Function(fd) => clause_bounds(fd.where_clauses@, fd.where_clauses@.len() as int),
            _ => 0,
        }
    } else {
        0
    }
}

proof fn lemma_checked_clauses_same(a: Seq<(TypeId, Vec<TypeId>)>, b: Seq<(TypeId, Vec<TypeId>)>, n: int)
    requires
        a.len() == b.len(),
        n <= a.len(),
        forall|i: int| 0 <= i < a.len() ==> (#[trigger] a[i]).0 == b[i].0 && a[i].1@ == b[i].1@,
    ensures
        checked_clauses(a, n) == checked_clauses(b, n),
        clause_bounds(a, n) == clause_bounds(b, n),
    decreases n,
{
    if n > 0 {
        lemma_checked_clauses_same(a, b, n - 1);
        assert(a[n - 1].0 == b[n - 1].0 && a[n - 1].1@ == b[n - 1].1@);
    }
}

/// The map a call binds is unchanged as the registry grows.
proof fn lemma_call_map_grow(
    s1: ExprChecker,
    after: ExprChecker,
    explicit: Seq<(SymbolId, TypeId)>,
    params: Seq<TypeId>,
    recv: Option<TypeId>,
    arg_tys: Seq<TypeId>,
    fuel: nat,
)
    requires
        s1.wf(),
        s1.tvars_valid(),
        s1.grows_reporting(after),
        ids_below(params, s1.ctx.types.len() as int),
        ids_below(arg_tys, s1.ctx.types.len() as int),
        map_valid(s1.ctx.types, explicit),
        recv matches Some(x) ==> s1.ctx.types.valid(x) && params.len() > 0,
    ensures
        after.call_generic_map(explicit, params, recv, arg_tys, fuel) == s1.call_generic_map(
            explicit,
            params,
            recv,
            arg_tys,
            fuel,
        ),
{
    let t1 = s1.ctx.types;
    let tvs = s1.type_vars@;
    match recv {
        Some(x) => {
            s1.lemma_grows_reporting(after, params[0]);
            lemma_tv_chain_valid(t1, tvs, params[0], tvs.len());
            let e = s1.resolved(params[0]);
            lemma_unify_grow(t1, after.ctx.types, tvs, e, x, explicit, fuel);
            lemma_unify_map_valid(t1, tvs, e, x, explicit, fuel);
            let m1 = unify_spec(t1, tvs, e, x, explicit, fuel).1;
            lemma_unify_args_grow(t1, after.ctx.types, tvs, params, 1, arg_tys, 0, m1, fuel);
        },
        None => {
            lemma_unify_args_grow(t1, after.ctx.types, tvs, params, 0, arg_tys, 0, explicit, fuel);
        },
    }
}

/// A call some of whose generic parameters stay unbound is reported, and
/// deduces the error type.
proof fn lemma_missing_inferred(
    s: ExprChecker,
    after: ExprChecker,
    def_id: DefId,
    generics: Seq<SymbolId>,
    explicit: Seq<TypeId>,
    raw_sig: TypeId,
    params: Seq<TypeId>,
    args: Seq<Expr>,
    is_method: bool,
    receiver_ty: TypeId,
    span: Span,
    tys: Vec<Option<TypeId>>,
    recv: Option<TypeId>,
    m: Seq<(SymbolId, TypeId)>,
)
    requires
        tys@ == arg_types_seq(args, params.len() as int, if is_method {
            1
        } else {
            0
        }),
        s.reported(after, DiagCode::CannotInferGenerics, span),
        recv == (if is_method {
            Some(after.stripped_receiver(params[0], receiver_ty))
        } else {
            None
        }),
        m == after.call_generic_map(fn_arg_map(generics, explicit), params, recv, expr_types(args), s.unify_depth()),
        !all_bound(m, generics),
    ensures
        s.inferred(
            after,
            def_id,
            generics,
            explicit,
            raw_sig,
            params,
            args,
            is_method,
            receiver_ty,
            span,
            (TY_ERROR, None, Some(tys)),
        ),
{
}

/// The receiver a method call's generic parameters are inferred from is
/// unchanged as the registry grows.
proof fn lemma_receiver_grow(
    s1: ExprChecker,
    after: ExprChecker,
    params: Seq<TypeId>,
    receiver_ty: TypeId,
    recv: Option<TypeId>,
    is_method: bool,
)
    requires
        s1.wf(),
        s1.tvars_valid(),
        s1.grows_reporting(after),
        is_method ==> params.len() > 0 && s1.ctx.types.valid(params[0]),
        s1.ctx.types.valid(receiver_ty),
        is_method ==> recv == Some(s1.stripped_receiver(params[0], receiver_ty)),
        is_method ==> (stripped_receiver_kind(s1.kind_of(params[0]), s1.ctx.types.kind(s1.resolved(receiver_ty))) matches Some(k)
            ==> first_of(s1.ctx.types, k, recv.unwrap())),
        !is_method ==> recv is None,
    ensures
        recv == (if is_method {
            Some(after.stripped_receiver(params[0], receiver_ty))
        } else {
            None
        }),
{
    if is_method {
        s1.lemma_grows_reporting(after, params[0]);
        s1.lemma_grows_reporting(after, receiver_ty);
        lemma_tv_chain_valid(s1.ctx.types, s1.type_vars@, params[0], s1.type_vars@.len());
        lemma_tv_chain_valid(s1.ctx.types, s1.type_vars@, receiver_ty, s1.type_vars@.len());
        s1.lemma_grows_reporting(after, s1.resolved(params[0]));
        s1.lemma_grows_reporting(after, s1.resolved(receiver_ty));
        if let Some(k) = stripped_receiver_kind(s1.kind_of(params[0]), s1.ctx.types.kind(s1.resolved(receiver_ty))) {
            lemma_first_grow(s1.ctx.types, after.ctx.types, k, recv.unwrap());
        }
    }
}

impl ExprChecker {
    /// The signature a call of the function definition type `norm_callee`
    /// is checked against: the definition's own where it has no generic
    /// parameters; instantiated with the explicit generic arguments where
    /// they are all given; otherwise instantiated with the arguments
    /// inferred by unifying the receiver (of type `receiver_ty`, for a
    /// method) and the argument types with the parameters, after which the
    /// `where` bounds are checked. Also the instantiated callee type, where
    /// inferred, and each argument's type, where inference looked at them.
    /// A callee type that is no function definition is handed back.
    pub fn deduce_and_resolve_signature(
        &mut self,
        norm_callee: TypeId,
        args: &Vec<Expr>,
        is_method: bool,
        receiver_ty: TypeId,
        span: Span,
        has_user_explicit_generics: bool,
    ) -> (r: (TypeId, Option<TypeId>, Option<Vec<Option<TypeId>>>))
        requires
            old(self).wf(),
            old(self).tvars_valid(),
            old(self).ctx.types.valid(norm_callee),
            old(self).ctx.types.valid(receiver_ty),
            forall|i: int| 0 <= i < args@.len() ==> old(self).ctx.types.valid(#[trigger] args@[i].ty),
        ensures
            old(self).grows_reporting(*final(self)),
            final(self).tvars_valid(),
            !(old(self).ctx.types.kind(norm_callee) is FnDef) ==> r.0 == norm_callee && r.1 is None && r.2 is None
                && final(self).ctx.diags == old(self).ctx.diags,
            old(self).ctx.types.kind(norm_callee) matches TypeKind::FnDef(def_id, explicit) ==> old(self).deduced(
                *final(self),
                def_id,
                explicit@,
                args@,
                is_method,
                receiver_ty,
                span,
                has_user_explicit_generics,
                r,
            ),
    {
        proof {
            lemma_prefix_refl(self.ctx.types.kinds());
            lemma_prefix_refl(self.ctx.diags@);
            assert(children_below(self.ctx.types.kinds()[norm_callee as int], norm_callee as int));
        }
        let (def_id, explicit) = match self.ctx.types.get(norm_callee) {
            TypeKind::FnDef(d, a) => (*d, copy_ids(a)),
            _ => {
                return (norm_callee, None, None);
            },
        };
        let info = if (def_id as usize) < self.ctx.defs.len() {
            match &self.ctx.defs[def_id as usize] {
                Def::Function(fd) => Some((copy_ids(&fd.generics), fd.sig)),
                _ => None,
            }
        } else {
            None
        };
        let (generics, sig) = match info {
            Some(x) => x,
            None => {
                self.report_one(DiagCode::FnDefNotFunction, span);
                return (TY_ERROR, None, None);
            },
        };
        let raw_sig = match sig {
            Some(t) => t,
            None => {
                self.report_one(DiagCode::FnDefWithoutSignature, span);
                return (TY_ERROR, None, None);
            },
        };
        if generics.len() == 0 {
            return (raw_sig, None, None);
        }
        if explicit.len() > generics.len() {
            self.report_one(DiagCode::TooManyGenericArgs, span);
            return (TY_ERROR, None, None);
        }
        if explicit.len() == generics.len() {
            let inst = self.instantiate_call_signature(raw_sig, &generics, &explicit);
            proof {
                lemma_prefix_refl(self.ctx.diags@);
                old(self).lemma_reporting_from(*self);
            }
            return (inst, None, None);
        }
        if has_user_explicit_generics && explicit.len() > 0 {
            self.report_one(DiagCode::GenericArgCountMismatch, span);
            return (TY_ERROR, None, None);
        }
        let params = if (raw_sig as usize) < self.ctx.types.num_types() {
            match self.ctx.types.get(raw_sig) {
                TypeKind::Function { params, .. } => Some(copy_ids(params)),
                _ => None,
            }
        } else {
            None
        };
        let params = match params {
            Some(p) => p,
            None => {
                self.report_one(DiagCode::FnDefSignatureNotFunction, span);
                return (TY_ERROR, None, None);
            },
        };
        if params.len() == 0 && is_method {
            self.report_one(DiagCode::MethodWithoutReceiver, span);
            return (TY_ERROR, None, None);
        }
        proof {
            assert(children_below(self.ctx.types.kinds()[raw_sig as int], raw_sig as int));
        }
        self.infer_call_signature(def_id, &generics, &explicit, raw_sig, &params, args, is_method, receiver_ty, span)
    }

    /// The inference step of `deduce_and_resolve_signature`.
    #[verifier::rlimit(30)]
    fn infer_call_signature(
        &mut self,
        def_id: DefId,
        generics: &Vec<SymbolId>,
        explicit: &Vec<TypeId>,
        raw_sig: TypeId,
        params: &Vec<TypeId>,
        args: &Vec<Expr>,
        is_method: bool,
        receiver_ty: TypeId,
        span: Span,
    ) -> (r: (TypeId, Option<TypeId>, Option<Vec<Option<TypeId>>>))
        requires
            old(self).wf(),
            old(self).tvars_valid(),
            old(self).ctx.types.valid(receiver_ty),
            forall|i: int| 0 <= i < args@.len() ==> old(self).ctx.types.valid(#[trigger] args@[i].ty),
            ids_below(explicit@, old(self).ctx.types.len() as int),
            ids_below(params@, old(self).ctx.types.len() as int),
            generics@.len() > 0,
            is_method ==> params@.len() > 0,
        ensures
            old(self).grows_reporting(*final(self)),
            final(self).tvars_valid(),
            old(self).inferred(
                *final(self),
                def_id,
                generics@,
                explicit@,
                raw_sig,
                params@,
                args@,
                is_method,
                receiver_ty,
                span,
                r,
            ),
    {
        proof {
            lemma_prefix_refl(self.ctx.types.kinds());
            lemma_prefix_refl(self.ctx.diags@);
        }
        let fuel = self.unify_budget();
        let off: usize = if is_method {
            1
        } else {
            0
        };
        let tys = arg_types_with_params(args, params.len(), off);
        let mut map = match self.build_generic_arg_map(generics, explicit) {
            Some(m) => m,
            None => Vec::new(),
        };
        proof {
            if explicit@.len() == 0 {
                assert(fn_arg_map(generics@, explicit@) =~= Seq::<(SymbolId, TypeId)>::empty());
            }
            lemma_fn_arg_map_valid(self.ctx.types, generics@, explicit@);
        }
        let ghost explicit_map = map@;
        let ghost s0 = *self;
        let mut recv_ty: Option<TypeId> = None;
        if is_method {
            let stripped = match self.strip_receiver(params[0], receiver_ty) {
                Some(x) => x,
                None => {
                    proof {
                        s0.lemma_reporting_from(*self);
                    }
                    return (TY_ERROR, None, Some(tys));
                },
            };
            let expected_recv = self.resolve_tv(params[0]);
            proof {
                s0.lemma_grows(*self, params@[0]);
                crate::infer::lemma_map_valid_grow(s0.ctx.types, self.ctx.types, map@);
                lemma_unify_map_valid(self.ctx.types, self.type_vars@, expected_recv, stripped, map@, fuel as nat);
            }
            self.unify_with(expected_recv, stripped, &mut map, fuel);
            recv_ty = Some(stripped);
        }
        let ghost s1 = *self;
        let ghost arg_tys = expr_types(args@);
        proof {
            s0.lemma_grows(s1, 0);
            crate::infer::lemma_map_valid_grow(s0.ctx.types, s1.ctx.types, explicit_map);
            assert forall|i: int| 0 <= i < args@.len() implies s1.ctx.types.valid(#[trigger] args@[i].ty) by {
                assert(s0.ctx.types.valid(args@[i].ty));
            }
        }
        self.unify_call_args(params, off, args, &mut map, fuel);
        let ghost m_final = map@;
        proof {
            assert(m_final == s1.call_generic_map(explicit_map, params@, recv_ty, arg_tys, fuel as nat));
            assert(ids_below(arg_tys, s1.ctx.types.len() as int));
        }
        let resolved = match self.bound_generic_args(&map, generics) {
            Some(v) => v,
            None => {
                self.report_one(DiagCode::CannotInferGenerics, span);
                proof {
                    s0.lemma_reporting_from(s1);
                    old(self).lemma_reporting_trans(s1, *self);
                    lemma_receiver_grow(s1, *self, params@, receiver_ty, recv_ty, is_method);
                    lemma_call_map_grow(s1, *self, explicit_map, params@, recv_ty, arg_tys, fuel as nat);
                    assert(s1.ctx.diags == old(self).ctx.diags);
                    assert(explicit_map == fn_arg_map(generics@, explicit@));
                    assert(self.call_generic_map(explicit_map, params@, recv_ty, arg_tys, fuel as nat) == m_final);
                    lemma_missing_inferred(*old(self), *self, def_id, generics@, explicit@, raw_sig, params@, args@, is_method, receiver_ty, span, tys, recv_ty, m_final);
                }
                return (TY_ERROR, None, Some(tys));
            },
        };
        self.check_generic_bounds(span, def_id, generics, &resolved);
        let ghost s2 = *self;
        proof {
            s1.lemma_grows_reporting(s2, 0);
        }
        let callee = match self.intern_ty(TypeKind::FnDef(def_id, copy_ids(&resolved))) {
            Some(x) => x,
            None => {
                proof {
                    s0.lemma_reporting_from(s1);
                    s2.lemma_reporting_from(*self);
                    old(self).lemma_reporting_trans(s1, s2);
                    old(self).lemma_reporting_trans(s2, *self);
                    s2.lemma_grows(*self, 0);
                }
                return (TY_ERROR, None, Some(tys));
            },
        };
        let ghost s3 = *self;
        proof {
            s2.lemma_grows(s3, 0);
        }
        let sig = self.instantiate_call_signature(raw_sig, generics, &resolved);
        proof {
            s3.lemma_grows(*self, 0);
            lemma_prefix_kind(s3.ctx.types, self.ctx.types, callee);
            s2.lemma_grows_trans(s3, *self);
            s2.lemma_reporting_from(*self);
            s0.lemma_reporting_from(s1);
            old(self).lemma_reporting_trans(s1, s2);
            old(self).lemma_reporting_trans(s2, *self);
            s1.lemma_reporting_trans(s2, *self);
            lemma_receiver_grow(s1, *self, params@, receiver_ty, recv_ty, is_method);
            lemma_call_map_grow(s1, *self, explicit_map, params@, recv_ty, arg_tys, fuel as nat);
        }
        (sig, Some(callee), Some(tys))
    }

    /// The receiver type a method's generic parameters are inferred from,
    /// interned where it is the immutable counterpart of the receiver;
    /// `None` where the registry has no room for it.
    fn strip_receiver(&mut self, expected_param: TypeId, receiver_ty: TypeId) -> (r: Option<TypeId>)
        requires
            old(self).wf(),
            old(self).tvars_valid(),
            old(self).ctx.types.valid(expected_param),
            old(self).ctx.types.valid(receiver_ty),
        ensures
            old(self).grows_to(*final(self)),
            final(self).tvars_valid(),
            r matches Some(x) ==> final(self).ctx.types.valid(x) && x == final(self).stripped_receiver(
                expected_param,
                receiver_ty,
            ) && (stripped_receiver_kind(
                final(self).kind_of(expected_param),
                final(self).ctx.types.kind(final(self).resolved(receiver_ty)),
            ) matches Some(k) ==> first_of(final(self).ctx.types, k, x)),
            r is None ==> final(self).ctx.types.len() >= u32::MAX,
    {
        proof {
            lemma_prefix_refl(self.ctx.types.kinds());
        }
        let recv = self.resolve_tv(receiver_ty);
        let expected_recv = self.resolve_tv(expected_param);
        proof {
            assert(children_below(self.ctx.types.kinds()[recv as int], recv as int));
        }
        let strip = match (self.ctx.types.get(expected_recv), self.ctx.types.get(recv)) {
            (TypeKind::Pointer { is_mut: false, .. }, TypeKind::Pointer { is_mut: true, elem }) => Some(
                TypeKind::Pointer { is_mut: false, elem: *elem },
            ),
            (TypeKind::VolatilePtr { is_mut: false, .. }, TypeKind::VolatilePtr { is_mut: true, elem }) => Some(
                TypeKind::VolatilePtr { is_mut: false, elem: *elem },
            ),
            _ => None,
        };
        let ghost s0 = *self;
        let ghost gk = strip;
        match strip {
            Some(k) => match self.intern_ty(k) {
                Some(x) => {
                    proof {
                        s0.lemma_grows(*self, expected_param);
                        s0.lemma_grows(*self, receiver_ty);
                        lemma_prefix_kind(s0.ctx.types, self.ctx.types, expected_recv);
                        lemma_prefix_kind(s0.ctx.types, self.ctx.types, recv);
                        crate::lookup::lemma_first_unique(self.ctx.types, gk.unwrap(), x);
                    }
                    Some(x)
                },
                None => None,
            },
            None => Some(recv),
        }
    }

    /// Unifies each parameter `params[i + off]` with the resolved type of
    /// argument `i`, where there is such a parameter and that type is not the
    /// error type.
    fn unify_call_args(
        &self,
        params: &Vec<TypeId>,
        off: usize,
        args: &Vec<Expr>,
        map: &mut Vec<(SymbolId, TypeId)>,
        fuel: u128,
    )
        requires
            self.wf(),
            self.tvars_valid(),
            off <= 1,
            ids_below(params@, self.ctx.types.len() as int),
            forall|i: int| 0 <= i < args@.len() ==> self.ctx.types.valid(#[trigger] args@[i].ty),
            map_valid(self.ctx.types, old(map)@),
        ensures
            final(map)@ == unify_args(
                self.ctx.types,
                self.type_vars@,
                params@,
                off as int,
                expr_types(args@),
                0,
                old(map)@,
                fuel as nat,
            ),
            map_valid(self.ctx.types, final(map)@),
    {
        let ghost arg_tys = expr_types(args@);
        let mut i: usize = 0;
        while i < args.len()
            invariant
                self.wf(),
                self.tvars_valid(),
                off <= 1,
                i <= args@.len(),
                arg_tys == expr_types(args@),
                ids_below(params@, self.ctx.types.len() as int),
                forall|i: int| 0 <= i < args@.len() ==> self.ctx.types.valid(#[trigger] args@[i].ty),
                map_valid(self.ctx.types, map@),
                unify_args(self.ctx.types, self.type_vars@, params@, off as int, arg_tys, 0, old(map)@, fuel as nat)
                    == unify_args(self.ctx.types, self.type_vars@, params@, off as int, arg_tys, i as int, map@, fuel as nat),
            decreases args@.len() - i,
        {
            if i + off < params.len() {
                let a = self.resolve_tv(args[i].ty);
                if a != TY_ERROR {
                    proof {
                        lemma_unify_map_valid(self.ctx.types, self.type_vars@, params@[i + off], a, map@, fuel as nat);
                    }
                    self.unify_with(params[i + off], a, map, fuel);
                }
            }
            i = i + 1;
        }
    }

    /// The type `map` binds each of `generics` to; `None` where one is not
    /// bound.
    fn bound_generic_args(&self, map: &Vec<(SymbolId, TypeId)>, generics: &Vec<SymbolId>) -> (r: Option<Vec<TypeId>>)
        requires
            map_valid(self.ctx.types, map@),
        ensures
            r is Some <==> all_bound(map@, generics@),
            r matches Some(v) ==> v@ == bound_args(map@, generics@) && ids_below(v@, self.ctx.types.len() as int),
    {
        let mut resolved: Vec<TypeId> = Vec::new();
        let mut j: usize = 0;
        while j < generics.len()
            invariant
                j <= generics@.len(),
                map_valid(self.ctx.types, map@),
                resolved@ == bound_args(map@, generics@).subrange(0, j as int),
                ids_below(resolved@, self.ctx.types.len() as int),
                forall|jj: int| 0 <= jj < j ==> (#[trigger] find_entry(map@, generics@[jj])) is Some,
            decreases generics@.len() - j,
        {
            match find_in_scope(map, generics[j]) {
                Some(k) => {
                    resolved.push(map[k].1);
                    assert(resolved@ =~= bound_args(map@, generics@).subrange(0, j + 1));
                },
                None => {
                    return None;
                },
            }
            j = j + 1;
        }
        assert(resolved@ =~= bound_args(map@, generics@));
        Some(resolved)
    }
}

/// The type of each argument that has a parameter, among `n_params`
/// parameters of which the first `off` take no argument.
fn arg_types_with_params(args: &Vec<Expr>, n_params: usize, off: usize) -> (r: Vec<Option<TypeId>>)
    requires
        off <= 1,
    ensures
        r@ == arg_types_seq(args@, n_params as int, off as int),
{
    let ghost want = arg_types_seq(args@, n_params as int, off as int);
    let mut tys: Vec<Option<TypeId>> = Vec::new();
    let mut i: usize = 0;
    while i < args.len()
        invariant
            off <= 1,
            i <= args@.len(),
            tys@ == want.subrange(0, i as int),
            want == arg_types_seq(args@, n_params as int, off as int),
        decreases args@.len() - i,
    {
        if i + off < n_params {
            tys.push(Some(args[i].ty));
        } else {
            tys.push(None);
        }
        i = i + 1;
        assert(tys@ =~= want.subrange(0, i as int));
    }
    assert(tys@ =~= want);
    tys
}

} // verus!
