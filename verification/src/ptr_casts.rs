//! Pointer conversions that involve trait objects: the implicit coercion of
//! one pointer type to another and the explicit cast of a pointer to a
//! trait-object pointer.
//!
//! The registry has no anonymous aggregate types and its trait objects carry
//! no associated-type bindings; the checks that concern those have nothing
//! to act on here.

use vstd::prelude::*;
use crate::types::{TypeId, TypeKind, PrimitiveType, children_below, same_kind};
use crate::checker::ExprChecker;
use crate::traits::lemma_prefix_refl;
use crate::traits::lemma_unresolved_grow;
use crate::subst::{lemma_prefix_kind, copy_ids};
use crate::coercion::sig_compat;
use crate::ast::Span;

verus! {

/// The mutability and element of a plain or volatile pointer kind.
pub open spec fn ptr_parts(k: TypeKind) -> Option<(bool, TypeId)> {
    match k {
        TypeKind::Pointer { is_mut, elem } | TypeKind::VolatilePtr { is_mut, elem } => Some((is_mut, elem)),
        _ => None,
    }
}

impl ExprChecker {
    /// Where `to` is a pointer to a trait object: its mutability and the
    /// trait object, resolved.
    pub open spec fn trait_ptr_target(self, to: TypeId) -> Option<(bool, TypeId)> {
        match ptr_parts(self.kind_of(to)) {
            Some((m, e)) => if self.kind_of(e) is TraitObject {
                Some((m, self.resolved(e)))
            } else {
                None
            },
            None => None,
        }
    }

    /// Both are pointers and the cast from `from` to `to` adds no mutability.
    pub open spec fn cast_keeps_mutability(self, from: TypeId, to: TypeId) -> bool {
        match (ptr_parts(self.kind_of(to)), ptr_parts(self.kind_of(from))) {
            (Some((tm, _)), Some((fm, _))) => !(tm && !fm),
            _ => false,
        }
    }

    /// A cast of a pointer to a trait object to a pointer to the same trait
    /// object.
    pub open spec fn upcast_cast(self, from: TypeId, to: TypeId) -> bool {
        &&& self.trait_ptr_target(to) is Some
        &&& self.cast_keeps_mutability(from, to)
        &&& self.kind_of(ptr_parts(self.kind_of(from)).unwrap().1) is TraitObject
        &&& self.resolved(ptr_parts(self.kind_of(from)).unwrap().1) == self.trait_ptr_target(to).unwrap().1
    }

    /// A cast of a ground pointer, of the mutability of the target, to a
    /// pointer to a trait object that an impl names for it.
    pub open spec fn direct_impl_cast(self, from: TypeId, to: TypeId) -> bool {
        &&& self.trait_ptr_target(to) is Some
        &&& ptr_parts(self.kind_of(from)) is Some
        &&& self.cast_keeps_mutability(from, to)
        &&& (self.trait_ptr_target(to).unwrap().0 || !ptr_parts(self.kind_of(from)).unwrap().0)
        &&& !(self.kind_of(ptr_parts(self.kind_of(from)).unwrap().1) is TraitObject)
        &&& self.ground(from)
        &&& self.has_direct_impl(from, self.trait_ptr_target(to).unwrap().1)
    }

    /// Whether a pointer of kind `act_kind` (the kind of `actual_ty`) coerces
    /// to a pointer to `expected_elem` of mutability `expected_mut`: to the
    /// same element, to `void`, to a supertrait object, or to a trait object
    /// of a trait the element implements.
    pub fn check_pointer_to_pointer_coercion(
        &mut self,
        expected_mut: bool,
        expected_elem: TypeId,
        actual_ty: TypeId,
        act_kind: &TypeKind,
    ) -> (r: bool)
        requires
            old(self).wf(),
            old(self).tvars_valid(),
            old(self).ctx.types.valid(expected_elem),
            old(self).ctx.types.valid(actual_ty),
            same_kind(*act_kind, old(self).ctx.types.kind(actual_ty)),
        ensures
            old(self).grows_to(*final(self)),
            final(self).tvars_valid(),
            r ==> (*act_kind matches TypeKind::Pointer { is_mut: am, .. } && (!expected_mut || am)),
            (*act_kind matches TypeKind::Pointer { is_mut: am, elem: ae } && (!expected_mut || am) && (
            expected_elem == old(self).resolved(ae) || old(self).ctx.types.kind(expected_elem)
                == TypeKind::Primitive(PrimitiveType::Void))) ==> r,
            (*act_kind matches TypeKind::Pointer { is_mut: am, .. } && (!expected_mut || am) && !(
            !expected_mut && am) && old(self).ctx.types.kind(expected_elem) is TraitObject && old(
                self,
            ).ground(actual_ty) && old(self).has_direct_impl(actual_ty, expected_elem)) ==> r,
    {
        proof {
            lemma_prefix_refl(self.ctx.types.kinds());
            assert(children_below(self.ctx.types.kinds()[actual_ty as int], actual_ty as int));
        }
        let (actual_mut, actual_elem) = match act_kind {
            TypeKind::Pointer { is_mut, elem } => (*is_mut, *elem),
            _ => {
                return false;
            },
        };
        if !Self::pointer_mutability_allows(expected_mut, actual_mut) {
            return false;
        }
        let actual_elem_norm = self.resolve_tv(actual_elem);
        if expected_elem == actual_elem_norm || self.ctx.types.is_void(expected_elem) {
            return true;
        }
        let exp_is_trait = match self.ctx.types.get(expected_elem) {
            TypeKind::TraitObject(..) => true,
            _ => false,
        };
        let act_is_trait = match self.ctx.types.get(actual_elem_norm) {
            TypeKind::TraitObject(..) => true,
            _ => false,
        };
        let ghost s0 = *self;
        if exp_is_trait && act_is_trait && self.is_trait_object_upcast(actual_elem_norm, expected_elem) {
            return true;
        }
        let ghost s1 = *self;
        proof {
            if exp_is_trait && act_is_trait {
                old(self).lemma_grows(s1, actual_ty);
                old(self).lemma_grows(s1, expected_elem);
                lemma_unresolved_grow(old(self).ctx.types, s1.ctx.types, actual_ty);
                lemma_prefix_kind(old(self).ctx.types, s1.ctx.types, expected_elem);
            }
        }
        if exp_is_trait {
            let source = if !expected_mut && actual_mut {
                match self.intern_ty(TypeKind::Pointer { is_mut: false, elem: actual_elem }) {
                    Some(t) => t,
                    None => {
                        proof {
                            old(self).lemma_grows_trans(s1, *self);
                            s1.lemma_grows(*self, 0);
                        }
                        return false;
                    },
                }
            } else {
                actual_ty
            };
            let ghost s2 = *self;
            proof {
                old(self).lemma_grows_trans(s1, s2);
                s1.lemma_grows(s2, 0);
            }
            let r = self.check_trait_impl(source, expected_elem);
            proof {
                old(self).lemma_grows_trans(s2, *self);
            }
            if r {
                return true;
            }
        }
        false
    }

    /// Whether a pointer of type `from` may be cast to the trait-object
    /// pointer type `to`: a trait object by upcast, any other pointee by an
    /// implementation of the trait; a cast may drop mutability but not add it.
    pub fn can_cast_to_trait_object_pointer(&mut self, from: TypeId, to: TypeId) -> (r: bool)
        requires
            old(self).wf(),
            old(self).tvars_valid(),
            old(self).ctx.types.valid(from),
            old(self).ctx.types.valid(to),
        ensures
            old(self).grows_to(*final(self)),
            final(self).tvars_valid(),
            r ==> old(self).trait_ptr_target(to) is Some && ptr_parts(old(self).kind_of(from)) is Some
                && old(self).cast_keeps_mutability(from, to),
            old(self).upcast_cast(from, to) ==> r,
            old(self).direct_impl_cast(from, to) ==> r,
    {
        proof {
            lemma_prefix_refl(self.ctx.types.kinds());
        }
        let to_norm = self.resolve_tv(to);
        let (to_mut, to_elem) = match self.ctx.types.get(to_norm) {
            TypeKind::Pointer { is_mut, elem } | TypeKind::VolatilePtr { is_mut, elem } => (*is_mut, *elem),
            _ => {
                return false;
            },
        };
        let trait_norm = self.resolve_tv(to_elem);
        match self.ctx.types.get(trait_norm) {
            TypeKind::TraitObject(..) => {},
            _ => {
                return false;
            },
        }
        let from_norm = self.resolve_tv(from);
        proof {
            assert(children_below(self.ctx.types.kinds()[from_norm as int], from_norm as int));
        }
        let (from_mut, from_elem, from_volatile) = match self.ctx.types.get(from_norm) {
            TypeKind::Pointer { is_mut, elem } => (*is_mut, *elem, false),
            TypeKind::VolatilePtr { is_mut, elem } => (*is_mut, *elem, true),
            _ => {
                return false;
            },
        };
        if to_mut && !from_mut {
            return false;
        }
        let from_elem_norm = self.resolve_tv(from_elem);
        match self.ctx.types.get(from_elem_norm) {
            TypeKind::TraitObject(..) => {
                return self.is_trait_object_upcast(from_elem_norm, trait_norm);
            },
            _ => {},
        }
        let proof_ty = if !to_mut && from_mut {
            let k = if from_volatile {
                TypeKind::VolatilePtr { is_mut: false, elem: from_elem }
            } else {
                TypeKind::Pointer { is_mut: false, elem: from_elem }
            };
            match self.intern_ty(k) {
                Some(t) => t,
                None => {
                    proof {
                        old(self).lemma_grows(*self, 0);
                    }
                    return false;
                },
            }
        } else {
            from
        };
        let ghost s1 = *self;
        proof {
            old(self).lemma_grows(s1, 0);
        }
        let r = self.check_trait_impl(proof_ty, trait_norm);
        proof {
            old(self).lemma_grows_trans(s1, *self);
        }
        r
    }

    /// The target of a cast of `from` to the trait-object pointer type `to`,
    /// with the trait object's associated types filled in from what `from`
    /// proves. Trait objects here carry no associated-type bindings, so the
    /// target stays `to`; the immutable view of `from` that the proof is
    /// taken on is interned as for any cast that drops mutability.
    pub fn enrich_trait_object_pointer_cast_target(&mut self, from: TypeId, to: TypeId) -> (r: TypeId)
        requires
            old(self).wf(),
        ensures
            r == to,
            old(self).grows_to(*final(self)),
    {
        proof {
            lemma_prefix_refl(self.ctx.types.kinds());
        }
        let to_norm = self.resolve_tv(to);
        let (is_mut, elem) = match self.ctx.types.get(to_norm) {
            TypeKind::Pointer { is_mut, elem } | TypeKind::VolatilePtr { is_mut, elem } => (*is_mut, *elem),
            _ => {
                return to;
            },
        };
        let elem_norm = self.resolve_tv(elem);
        match self.ctx.types.get(elem_norm) {
            TypeKind::TraitObject(..) => {},
            _ => {
                return to;
            },
        }
        let from_norm = self.resolve_tv(from);
        proof {
            assert(children_below(self.ctx.types.kinds()[from_norm as int], from_norm as int));
        }
        let proof_kind = match self.ctx.types.get(from_norm) {
            TypeKind::Pointer { is_mut: from_mut, elem: from_elem } => if !is_mut && *from_mut {
                Some(TypeKind::Pointer { is_mut: false, elem: *from_elem })
            } else {
                None
            },
            TypeKind::VolatilePtr { is_mut: from_mut, elem: from_elem } => if !is_mut && *from_mut {
                Some(TypeKind::VolatilePtr { is_mut: false, elem: *from_elem })
            } else {
                None
            },
            _ => {
                return to;
            },
        };
        if let Some(k) = proof_kind {
            let _ = self.intern_ty(k);
        }
        to
    }

    /// The type of the integer operand of a cast to a pointer. Inference
    /// variables here carry no set of numeric candidates to narrow to the
    /// pointer-offset integers, so this is the operand's type resolved.
    pub fn constrain_pointer_cast_integer(&mut self, ty: TypeId) -> (r: TypeId)
        requires
            old(self).wf(),
        ensures
            r == old(self).resolved(ty),
            *final(self) == *old(self),
    {
        self.resolve_tv(ty)
    }
}

impl ExprChecker {
    /// Where `to` is a pointer to a closure interface: its mutability, and
    /// the interface's parameter and return types.
    pub open spec fn closure_ptr_target(self, to: TypeId) -> Option<(bool, Seq<TypeId>, TypeId)> {
        match ptr_parts(self.kind_of(to)) {
            Some((m, e)) => match self.kind_of(e) {
                TypeKind::ClosureInterface { params, ret } => Some((m, params@, ret)),
                _ => None,
            },
            None => None,
        }
    }

    /// Whether a pointer of type `from` may be cast to the pointer to a
    /// closure interface `to`: its pointee must be a closure, a non-variadic
    /// function or a function item of a compatible signature, and the cast
    /// may not add mutability.
    pub fn can_cast_to_closure_fat_pointer(&mut self, from: TypeId, to: TypeId) -> (r: bool)
        requires
            old(self).wf(),
            old(self).tvars_valid(),
        ensures
            old(self).grows_reporting(*final(self)),
            final(self).tvars_valid(),
            r ==> old(self).closure_ptr_target(to) is Some && ptr_parts(old(self).kind_of(from)) is Some && !(
            old(self).closure_ptr_target(to).unwrap().0 && !ptr_parts(old(self).kind_of(from)).unwrap().0),
            (old(self).closure_ptr_target(to) matches Some((tm, cp, cr)) && ptr_parts(old(self).kind_of(from))
                matches Some((fm, fe)) && !(tm && !fm) && (old(self).kind_of(fe) matches TypeKind::AnonymousState {
                params,
                ret,
                ..
            } && sig_compat(
                old(self).ctx.types,
                old(self).type_vars@,
                cp,
                cr,
                params@,
                ret,
                old(self).unify_depth(),
            ))) ==> r,
    {
        proof {
            lemma_prefix_refl(self.ctx.types.kinds());
            lemma_prefix_refl(self.ctx.diags@);
        }
        let to_norm = self.resolve_tv(to);
        let (to_mut, to_elem) = match self.ctx.types.get(to_norm) {
            TypeKind::Pointer { is_mut, elem } | TypeKind::VolatilePtr { is_mut, elem } => (*is_mut, *elem),
            _ => {
                return false;
            },
        };
        let closure_norm = self.resolve_tv(to_elem);
        let (params, ret) = match self.ctx.types.get(closure_norm) {
            TypeKind::ClosureInterface { params, ret } => (copy_ids(params), *ret),
            _ => {
                return false;
            },
        };
        let from_norm = self.resolve_tv(from);
        let (from_mut, from_elem) = match self.ctx.types.get(from_norm) {
            TypeKind::Pointer { is_mut, elem } | TypeKind::VolatilePtr { is_mut, elem } => (*is_mut, *elem),
            _ => {
                return false;
            },
        };
        if to_mut && !from_mut {
            return false;
        }
        let from_elem_norm = self.resolve_tv(from_elem);
        let fn_def = match self.ctx.types.get(from_elem_norm) {
            TypeKind::AnonymousState { params: sp, ret: sr, .. } => {
                return self.signatures_compatible(&params, ret, sp, *sr);
            },
            TypeKind::Function { params: fp, ret: fr, is_variadic: false } => {
                return self.signatures_compatible(&params, ret, fp, *fr);
            },
            TypeKind::FnDef(def_id, args) => (*def_id, copy_ids(args)),
            _ => {
                return false;
            },
        };
        let sig = self.instantiate_fn_def_signature(fn_def.0, &fn_def.1, Span { file: 0, line: 0, col: 0 });
        match sig {
            Some((fp, fr)) => self.signatures_compatible(&params, ret, &fp, fr),
            None => false,
        }
    }
}

} // verus!
