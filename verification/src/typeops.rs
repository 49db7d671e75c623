//! Queries of the checker on the shape of types: generic parameters still to
//! be resolved, pointer layers, the pointer kinds that casts distinguish,
//! and how well an argument type matches a parameter type.

use vstd::prelude::*;
use crate::types::{
    TypeId, DefId, TypeKind, TypeRegistry, children_below, TY_ERROR, TY_NEVER, TY_ISIZE, TY_USIZE,
};
use crate::context::ScopeId;
use crate::checker::{ExprChecker, module_of};
use crate::eval_spec::known_ty;
use crate::eval_state::GenericArg;

verus! {

/// `t` mentions a generic parameter or an inference variable.
pub open spec fn contains_unresolved(types: TypeRegistry, t: TypeId) -> bool
    decreases t + 1, 0int,
{
    let n = types.norm(known_ty(types, t));
    if n > t {
        false
    } else {
        match types.kind(n) {
            TypeKind::Param(_) | TypeKind::TypeVar(_) => true,
            TypeKind::Pointer { elem, .. } | TypeKind::VolatilePtr { elem, .. } | TypeKind::Slice {
                elem,
                ..
            } | TypeKind::Array { elem, .. } | TypeKind::ArrayInfer { elem, .. } | TypeKind::Simd {
                elem,
                ..
            } => if elem < n {
                contains_unresolved(types, elem)
            } else {
                false
            },
            TypeKind::Def(_, args) | TypeKind::Enum(_, args) | TypeKind::TraitObject(_, args)
            | TypeKind::FnDef(_, args) => any_unresolved(types, args@, n as int),
            TypeKind::Function { params, ret, .. } | TypeKind::ClosureInterface { params, ret } => any_unresolved(
                types,
                params@,
                n as int,
            ) || (ret < n && contains_unresolved(types, ret)),
            TypeKind::AnonymousState { captures, params, ret } => any_unresolved(
                types,
                captures@,
                n as int,
            ) || any_unresolved(types, params@, n as int) || (ret < n && contains_unresolved(types, ret)),
            _ => false,
        }
    }
}

/// Some type of `ids`, each below `b`, mentions a generic parameter or an
/// inference variable.
pub open spec fn any_unresolved(types: TypeRegistry, ids: Seq<TypeId>, b: int) -> bool
    decreases b, ids.len(),
{
    if ids.len() == 0 {
        false
    } else {
        (ids[0] < b && contains_unresolved(types, ids[0])) || any_unresolved(
            types,
            ids.subrange(1, ids.len() as int),
            b,
        )
    }
}

impl ExprChecker {
    /// Whether `ty` mentions a generic parameter or an inference variable.
    pub fn type_contains_unresolved_params(&self, ty: TypeId) -> (r: bool)
        requires
            self.wf(),
        ensures
            r == contains_unresolved(self.ctx.types, ty),
        decreases ty + 1, 0int,
    {
        let t0 = if (ty as usize) < self.ctx.types.num_types() {
            ty
        } else {
            TY_ERROR
        };
        let n = self.ctx.types.normalize(t0);
        if n > ty {
            return false;
        }
        proof {
            assert(children_below(self.ctx.types.kinds()[n as int], n as int));
        }
        match self.ctx.types.get(n) {
            TypeKind::Param(_) | TypeKind::TypeVar(_) => true,
            TypeKind::Pointer { elem, .. } | TypeKind::VolatilePtr { elem, .. } | TypeKind::Slice {
                elem,
                ..
            } | TypeKind::Array { elem, .. } | TypeKind::ArrayInfer { elem, .. } | TypeKind::Simd {
                elem,
                ..
            } => self.type_contains_unresolved_params(*elem),
            TypeKind::Def(_, args) | TypeKind::Enum(_, args) | TypeKind::TraitObject(_, args)
            | TypeKind::FnDef(_, args) => self.any_type_unresolved(args, n),
            TypeKind::Function { params, ret, .. } | TypeKind::ClosureInterface { params, ret } => {
                self.any_type_unresolved(params, n) || self.type_contains_unresolved_params(*ret)
            },
            TypeKind::AnonymousState { captures, params, ret } => {
                self.any_type_unresolved(captures, n) || self.any_type_unresolved(params, n)
                    || self.type_contains_unresolved_params(*ret)
            },
            _ => false,
        }
    }

    fn any_type_unresolved(&self, ids: &Vec<TypeId>, b: TypeId) -> (r: bool)
        requires
            self.wf(),
            forall|j: int| 0 <= j < ids@.len() ==> ids@[j] < b,
        ensures
            r == any_unresolved(self.ctx.types, ids@, b as int),
        decreases b, ids@.len(),
    {
        let mut j: usize = 0;
        assert(ids@.subrange(0, ids@.len() as int) =~= ids@);
        while j < ids.len()
            invariant
                self.wf(),
                j <= ids@.len(),
                forall|k: int| 0 <= k < ids@.len() ==> ids@[k] < b,
                any_unresolved(self.ctx.types, ids@, b as int) == any_unresolved(
                    self.ctx.types,
                    ids@.subrange(j as int, ids@.len() as int),
                    b as int,
                ),
            decreases ids@.len() - j,
        {
            let ghost rest = ids@.subrange(j as int, ids@.len() as int);
            assert(rest.subrange(1, rest.len() as int) =~= ids@.subrange(j + 1, ids@.len() as int));
            if self.type_contains_unresolved_params(ids[j]) {
                return true;
            }
            j = j + 1;
        }
        false
    }
}


/// Follows pointer layers from `t` (inference variables resolved) to the
/// first type that is not a pointer, through at most `fuel` layers.
pub open spec fn peel_pointers(types: TypeRegistry, tvs: Seq<Option<TypeId>>, t: TypeId, fuel: nat) -> TypeId
    decreases fuel,
{
    let n = crate::checker::tv_chain(types, tvs, t, tvs.len());
    match types.kind(n) {
        TypeKind::Pointer { elem, .. } | TypeKind::VolatilePtr { elem, .. } => if fuel > 0 {
            peel_pointers(types, tvs, elem, (fuel - 1) as nat)
        } else {
            n
        },
        _ => n,
    }
}

/// A bound on the pointer layers of a type: enough for every type whose
/// inference variables are bound without cycles.
pub open spec fn peel_fuel(types: TypeRegistry, tvs: Seq<Option<TypeId>>) -> nat {
    types.len() * (tvs.len() + 1)
}

/// `p` is a pointer (plain or volatile) to a type of the given shape.
pub open spec fn points_to(types: TypeRegistry, t: TypeId, pred: spec_fn(TypeKind) -> bool) -> bool {
    match types.kind(types.norm(known_ty(types, t))) {
        TypeKind::Pointer { elem, .. } | TypeKind::VolatilePtr { elem, .. } => pred(
            types.kind(types.norm(known_ty(types, elem))),
        ),
        _ => false,
    }
}

pub open spec fn norm_kind(types: TypeRegistry, t: TypeId) -> TypeKind {
    types.kind(types.norm(known_ty(types, t)))
}

/// The mutability of a pointer (plain or volatile) type.
pub open spec fn pointer_mut(k: TypeKind) -> Option<bool> {
    match k {
        TypeKind::Pointer { is_mut, .. } | TypeKind::VolatilePtr { is_mut, .. } => Some(is_mut),
        _ => None,
    }
}

impl ExprChecker {
    pub open spec fn base_of(self, t: TypeId) -> TypeId {
        peel_pointers(self.ctx.types, self.type_vars@, t, peel_fuel(self.ctx.types, self.type_vars@))
    }

    /// Follows pointer layers from `base_ty` to the aggregate or module type
    /// under them.
    pub fn get_base_type(&self, base_ty: TypeId) -> (r: TypeId)
        requires
            self.wf(),
        ensures
            r == self.base_of(base_ty),
            self.ctx.types.valid(r),
    {
        let ghost tvs = self.type_vars@;
        let nt = self.ctx.types.num_types() as u128;
        let nv = (self.type_vars.len() as u128) + 1;
        assert(nt * nv <= 0xffff_ffff * 0x1_0000_0000_0000_0000) by (nonlinear_arith)
            requires
                nt <= 0xffff_ffff,
                nv <= 0x1_0000_0000_0000_0000,
        ;
        let mut fuel: u128 = nt * nv;
        let mut cur = base_ty;
        loop
            invariant
                self.wf(),
                tvs == self.type_vars@,
                fuel <= peel_fuel(self.ctx.types, tvs),
                peel_pointers(self.ctx.types, tvs, cur, fuel as nat) == self.base_of(base_ty),
            decreases fuel,
        {
            let n = self.resolve_tv(cur);
            match self.ctx.types.get(n) {
                TypeKind::Pointer { elem, .. } | TypeKind::VolatilePtr { elem, .. } => {
                    if fuel == 0 {
                        return n;
                    }
                    cur = *elem;
                    fuel = fuel - 1;
                },
                _ => {
                    return n;
                },
            }
        }
    }

    /// The type a method receiver's methods are looked up on: the receiver
    /// with its pointer layers removed.
    pub fn method_receiver_base_type(&self, receiver_ty: TypeId) -> (r: TypeId)
        requires
            self.wf(),
        ensures
            r == self.base_of(receiver_ty),
    {
        self.get_base_type(receiver_ty)
    }

    /// Whether a receiver is, under its pointer layers, a module.
    pub fn receiver_base_is_module(&self, receiver_ty: TypeId) -> (r: bool)
        requires
            self.wf(),
        ensures
            r == (self.ctx.types.kind(self.base_of(receiver_ty)) is Module),
    {
        let b = self.get_base_type(receiver_ty);
        match self.ctx.types.get(b) {
            TypeKind::Module(_) => true,
            _ => false,
        }
    }

    /// How well an argument of type `actual` fits a parameter of type
    /// `expected`: 0 for an exact fit, 1 for a fit after a weakening
    /// conversion, none where neither.
    pub open spec fn match_score(self, expected: TypeId, actual: TypeId) -> Option<usize> {
        let e = self.resolved(expected);
        let a = self.resolved(actual);
        if e == a || e == TY_ERROR || a == TY_ERROR {
            Some(0)
        } else if a == TY_NEVER {
            Some(1)
        } else {
            match (self.ctx.types.kind(e), self.ctx.types.kind(a)) {
                (TypeKind::Slice { is_mut: false, elem: ee }, TypeKind::Array { elem: ae, .. }) => if self.resolved(ee) == self.resolved(ae) {
                    Some(1)
                } else {
                    None
                },
                (TypeKind::Slice { is_mut: false, elem: ee }, TypeKind::ArrayInfer { elem: ae, .. }) => if self.resolved(ee) == self.resolved(ae) {
                    Some(1)
                } else {
                    None
                },
                (TypeKind::Slice { is_mut: false, elem: ee }, TypeKind::Slice { is_mut: true, elem: ae }) => if self.resolved(ee) == self.resolved(ae) {
                    Some(1)
                } else {
                    None
                },
                (TypeKind::Pointer { is_mut: false, elem: ee }, TypeKind::Pointer { is_mut: true, elem: ae }) => if self.resolved(ee) == self.resolved(ae) {
                    Some(1)
                } else {
                    None
                },
                (
                    TypeKind::VolatilePtr { is_mut: false, elem: ee },
                    TypeKind::VolatilePtr { is_mut: true, elem: ae },
                ) => if self.resolved(ee) == self.resolved(ae) {
                    Some(1)
                } else {
                    None
                },
                _ => None,
            }
        }
    }

    pub fn call_argument_match_score(&self, expected: TypeId, actual: TypeId) -> (r: Option<usize>)
        requires
            self.wf(),
        ensures
            r == self.match_score(expected, actual),
    {
        let e = self.resolve_tv(expected);
        let a = self.resolve_tv(actual);
        if e == a || e == TY_ERROR || a == TY_ERROR {
            return Some(0);
        }
        if a == TY_NEVER {
            return Some(1);
        }
        let (ee, ae) = match (self.ctx.types.get(e), self.ctx.types.get(a)) {
            (TypeKind::Slice { is_mut: false, elem: ee }, TypeKind::Array { elem: ae, .. }) => (*ee, *ae),
            (TypeKind::Slice { is_mut: false, elem: ee }, TypeKind::ArrayInfer { elem: ae, .. }) => (*ee, *ae),
            (TypeKind::Slice { is_mut: false, elem: ee }, TypeKind::Slice { is_mut: true, elem: ae }) => (*ee, *ae),
            (TypeKind::Pointer { is_mut: false, elem: ee }, TypeKind::Pointer { is_mut: true, elem: ae }) => (*ee, *ae),
            (TypeKind::VolatilePtr { is_mut: false, elem: ee }, TypeKind::VolatilePtr { is_mut: true, elem: ae }) => (
                *ee,
                *ae,
            ),
            _ => {
                return None;
            },
        };
        if self.resolve_tv(ee) == self.resolve_tv(ae) {
            Some(1)
        } else {
            None
        }
    }

    /// The expected type of the operand of a cast to `target`: the target
    /// itself where it is numeric.
    pub fn cast_operand_expected_type(&self, target_ty: TypeId) -> (r: Option<TypeId>)
        requires
            self.wf(),
        ensures
            r == (if self.ctx.types.is_int_ty(self.resolved(target_ty)) || self.ctx.types.is_float_ty(
                self.resolved(target_ty),
            ) {
                Some(self.resolved(target_ty))
            } else {
                None
            }),
    {
        let n = self.resolve_tv(target_ty);
        if self.ctx.types.is_integer(n) || self.ctx.types.is_float(n) {
            Some(n)
        } else {
            None
        }
    }

    fn norm_of(&self, ty: TypeId) -> (r: TypeId)
        requires
            self.wf(),
        ensures
            r == self.ctx.types.norm(known_ty(self.ctx.types, ty)),
            self.ctx.types.valid(r),
    {
        let t0 = if (ty as usize) < self.ctx.types.num_types() {
            ty
        } else {
            TY_ERROR
        };
        self.ctx.types.normalize(t0)
    }

    /// A plain pointer type.
    pub fn is_object_pointer_type(&self, ty: TypeId) -> (r: bool)
        requires
            self.wf(),
        ensures
            r == (norm_kind(self.ctx.types, ty) is Pointer),
    {
        let n = self.norm_of(ty);
        match self.ctx.types.get(n) {
            TypeKind::Pointer { .. } => true,
            _ => false,
        }
    }

    /// A volatile (address) pointer type.
    pub fn is_address_pointer_type(&self, ty: TypeId) -> (r: bool)
        requires
            self.wf(),
        ensures
            r == (norm_kind(self.ctx.types, ty) is VolatilePtr),
    {
        let n = self.norm_of(ty);
        match self.ctx.types.get(n) {
            TypeKind::VolatilePtr { .. } => true,
            _ => false,
        }
    }

    /// A function pointer or function item type.
    pub fn is_function_pointer_type(&self, ty: TypeId) -> (r: bool)
        requires
            self.wf(),
        ensures
            r == (norm_kind(self.ctx.types, ty) is Function || norm_kind(self.ctx.types, ty) is FnDef),
    {
        let n = self.norm_of(ty);
        match self.ctx.types.get(n) {
            TypeKind::Function { .. } | TypeKind::FnDef(..) => true,
            _ => false,
        }
    }

    fn pointee_kind_is(&self, ty: TypeId, which: u8) -> (r: bool)
        requires
            self.wf(),
        ensures
            r == points_to(
                self.ctx.types,
                ty,
                |k: TypeKind|
                    if which == 0 {
                        k is Slice
                    } else if which == 1 {
                        k is TraitObject
                    } else {
                        k is ClosureInterface
                    },
            ),
    {
        let n = self.norm_of(ty);
        match self.ctx.types.get(n) {
            TypeKind::Pointer { elem, .. } | TypeKind::VolatilePtr { elem, .. } => {
                let en = self.norm_of(*elem);
                match self.ctx.types.get(en) {
                    TypeKind::Slice { .. } => which == 0,
                    TypeKind::TraitObject(..) => which == 1,
                    TypeKind::ClosureInterface { .. } => which != 0 && which != 1,
                    _ => false,
                }
            },
            _ => false,
        }
    }

    /// A pointer to a slice.
    pub fn is_slice_pointer_value_type(&self, ty: TypeId) -> (r: bool)
        requires
            self.wf(),
        ensures
            r == points_to(self.ctx.types, ty, |k: TypeKind| k is Slice),
    {
        let r = self.pointee_kind_is(ty, 0);
        assert(r == points_to(self.ctx.types, ty, |k: TypeKind| k is Slice)) by {
            assert(norm_kind(self.ctx.types, ty) == self.ctx.types.kind(self.ctx.types.norm(known_ty(self.ctx.types, ty))));
        }
        r
    }

    /// A pointer to a trait object.
    pub fn is_trait_object_pointer_value_type(&self, ty: TypeId) -> (r: bool)
        requires
            self.wf(),
        ensures
            r == points_to(self.ctx.types, ty, |k: TypeKind| k is TraitObject),
    {
        self.pointee_kind_is(ty, 1)
    }

    /// A pointer to a closure interface.
    pub fn is_closure_fat_pointer_value_type(&self, ty: TypeId) -> (r: bool)
        requires
            self.wf(),
        ensures
            r == points_to(self.ctx.types, ty, |k: TypeKind| k is ClosureInterface),
    {
        self.pointee_kind_is(ty, 2)
    }

    /// A pointer that carries metadata: to a slice, a trait object or a
    /// closure interface.
    pub fn is_fat_pointer_value_type(&self, ty: TypeId) -> (r: bool)
        requires
            self.wf(),
        ensures
            r == (points_to(self.ctx.types, ty, |k: TypeKind| k is Slice) || points_to(
                self.ctx.types,
                ty,
                |k: TypeKind| k is TraitObject,
            ) || points_to(self.ctx.types, ty, |k: TypeKind| k is ClosureInterface)),
    {
        self.is_slice_pointer_value_type(ty) || self.is_trait_object_pointer_value_type(ty)
            || self.is_closure_fat_pointer_value_type(ty)
    }

    /// A cast from a pointer that cannot write to one that can.
    pub fn fat_pointer_cast_mutability_mismatch(&self, from: TypeId, to: TypeId) -> (r: bool)
        requires
            self.wf(),
        ensures
            r == (pointer_mut(norm_kind(self.ctx.types, from)) == Some(false) && pointer_mut(
                norm_kind(self.ctx.types, to),
            ) == Some(true)),
    {
        let f = self.norm_of(from);
        let t = self.norm_of(to);
        let source_mut = match self.ctx.types.get(f) {
            TypeKind::Pointer { is_mut, .. } | TypeKind::VolatilePtr { is_mut, .. } => *is_mut,
            _ => {
                return false;
            },
        };
        let target_mut = match self.ctx.types.get(t) {
            TypeKind::Pointer { is_mut, .. } | TypeKind::VolatilePtr { is_mut, .. } => *is_mut,
            _ => {
                return false;
            },
        };
        target_mut && !source_mut
    }

    /// A pointer that cannot write may stand where one that can is expected
    /// only if the expected one cannot write either.
    pub fn pointer_mutability_allows(expected_mut: bool, actual_mut: bool) -> (r: bool)
        ensures
            r == (!expected_mut || actual_mut),
    {
        !expected_mut || actual_mut
    }

    /// The module of the current scope, remembered for the scope it was
    /// looked up for.
    pub fn cached_current_module_id(&mut self) -> (r: Option<DefId>)
        requires
            old(self).wf(),
            old(self).cache_ok(),
        ensures
            r == (match old(self).ctx.current_scope {
                Some(s) => module_of(old(self).ctx.scopes@, s),
                None => None,
            }),
            final(self).cache_ok(),
            final(self).ctx == old(self).ctx,
            final(self).type_vars == old(self).type_vars,
            final(self).active_bounds == old(self).active_bounds,
            final(self).impls == old(self).impls,
    {
        let cur = match self.ctx.current_scope {
            Some(s) => s,
            None => {
                return None;
            },
        };
        if let Some((cached_scope, module_id)) = self.current_module_cache {
            if cached_scope == cur {
                return module_id;
            }
        }
        let m = self.module_for_scope(cur);
        self.current_module_cache = Some((cur, m));
        m
    }

    pub open spec fn cache_ok(self) -> bool {
        self.current_module_cache matches Some((s, m)) ==> m == module_of(self.ctx.scopes@, s)
    }

    /// The module a scope belongs to.
    pub fn module_for_scope(&self, scope: ScopeId) -> (r: Option<DefId>)
        ensures
            r == module_of(self.ctx.scopes@, scope),
    {
        let mut cur = scope;
        loop
            invariant
                module_of(self.ctx.scopes@, cur) == module_of(self.ctx.scopes@, scope),
            decreases cur,
        {
            if cur as usize >= self.ctx.scopes.len() {
                return None;
            }
            match self.ctx.scopes[cur as usize].module {
                Some(m) => {
                    return Some(m);
                },
                None => match self.ctx.scopes[cur as usize].parent {
                    Some(p) => {
                        if p >= cur {
                            return None;
                        }
                        cur = p;
                    },
                    None => {
                        return None;
                    },
                },
            }
        }
    }

    /// The scope a definition's body is resolved in.
    pub fn global_owner_scope(&self, def_id: DefId) -> (r: Option<ScopeId>)
        ensures
            r == self.ctx.def_owner(def_id),
    {
        self.ctx.def_owner_scope(def_id)
    }
}
} // verus!
