//! The `as` cast: which conversions between types it allows, and the
//! diagnostics for the ones it does not.

use vstd::prelude::*;
use crate::types::{TypeId, TypeKind, TY_ERROR, TY_BOOL, TY_USIZE, TY_ISIZE};
use crate::context::{Diagnostic, DiagCode};
use crate::ast::{Expr, Span};
use crate::checker::ExprChecker;
use crate::typeops::{points_to, norm_kind, pointer_mut};
use crate::traits::lemma_prefix_refl;

verus! {

/// How an `as` cast is judged: allowed, refused with a diagnostic, or
/// decided by whether the source can stand behind a closure object or a
/// trait object.
pub enum CastVerdict {
    Allowed,
    Refused(DiagCode),
    ClosureObject,
    TraitObject,
}

/// A function, a function definition or a pointer: what `as` treats as a
/// pointer.
pub open spec fn pointer_like(k: TypeKind) -> bool {
    k is Function || k is FnDef || k is Pointer || k is VolatilePtr
}

impl ExprChecker {
    /// The verdict on casting a value of type `from` to `to`.
    pub open spec fn cast_verdict(self, from: TypeId, to: TypeId) -> CastVerdict {
        let types = self.ctx.types;
        if from == to || from == TY_ERROR || to == TY_ERROR {
            CastVerdict::Allowed
        } else {
            let f = self.resolved(from);
            let t = self.resolved(to);
            let f_ptr = pointer_like(types.kind(f));
            let t_ptr = pointer_like(types.kind(t));
            let mismatch = pointer_mut(norm_kind(types, from)) == Some(false) && pointer_mut(norm_kind(types, to))
                == Some(true);
            if f_ptr && t_ptr {
                if points_to(types, t, |k: TypeKind| k is Slice) {
                    CastVerdict::Refused(DiagCode::CastPointerToSlice)
                } else if points_to(types, t, |k: TypeKind| k is ClosureInterface) {
                    if mismatch {
                        CastVerdict::Refused(DiagCode::CastImmutableToMutClosure)
                    } else {
                        CastVerdict::ClosureObject
                    }
                } else if points_to(types, t, |k: TypeKind| k is TraitObject) {
                    if mismatch {
                        CastVerdict::Refused(DiagCode::CastImmutableToMutTraitObject)
                    } else {
                        CastVerdict::TraitObject
                    }
                } else {
                    CastVerdict::Allowed
                }
            } else {
                let f_int = f == TY_USIZE || f == TY_ISIZE;
                let t_int = t == TY_USIZE || t == TY_ISIZE;
                let t_fat = points_to(types, t, |k: TypeKind| k is Slice) || points_to(
                    types,
                    t,
                    |k: TypeKind| k is TraitObject,
                ) || points_to(types, t, |k: TypeKind| k is ClosureInterface);
                let tk = norm_kind(types, t);
                if f_ptr && t_int {
                    CastVerdict::Allowed
                } else if f_int && t_fat {
                    CastVerdict::Refused(DiagCode::CastIntToFatPointer)
                } else if f_int && (tk is VolatilePtr || tk is Pointer || tk is Function || tk is FnDef) {
                    CastVerdict::Allowed
                } else if (types.is_int_ty(f) || types.is_float_ty(f) || f == TY_BOOL) && (types.is_int_ty(t)
                    || types.is_float_ty(t)) {
                    CastVerdict::Allowed
                } else {
                    CastVerdict::Refused(DiagCode::InvalidCast)
                }
            }
        }
    }

    /// Checks an `as` cast from `from` to `to`: numeric conversions,
    /// pointer reinterpretation, pointer-integer conversions, and packaging
    /// a pointer as a closure object or a trait object it can stand behind
    /// are allowed; anything else is reported at `span`.
    pub fn check_cast(&mut self, span: Span, from: TypeId, to: TypeId)
        requires
            old(self).wf(),
            old(self).tvars_valid(),
            old(self).ctx.types.valid(from),
            old(self).ctx.types.valid(to),
        ensures
            old(self).grows_reporting(*final(self)),
            final(self).tvars_valid(),
            match old(self).cast_verdict(from, to) {
                CastVerdict::Allowed => *final(self) == *old(self),
                CastVerdict::Refused(c) => final(self).ctx.diags@ == old(self).ctx.diags@.push(
                    Diagnostic { code: c, span },
                ) && old(self).same_but_diags(*final(self)),
                CastVerdict::TraitObject => {
                    &&& final(self).ctx.diags@ == old(self).ctx.diags@ || final(self).ctx.diags@ == old(self).ctx.diags@.push(
                        Diagnostic { code: DiagCode::CastToTraitObject, span },
                    )
                    &&& old(self).upcast_cast(from, to) || old(self).direct_impl_cast(from, to) ==> final(self).ctx.diags@
                        == old(self).ctx.diags@
                },
                CastVerdict::ClosureObject => true,
            },
    {
        proof {
            lemma_prefix_refl(self.ctx.types.kinds());
            lemma_prefix_refl(self.ctx.diags@);
        }
        if from == to || from == TY_ERROR || to == TY_ERROR {
            return ;
        }
        let f_norm = self.resolve_tv(from);
        let t_norm = self.resolve_tv(to);
        let f_ptr = match self.ctx.types.get(f_norm) {
            TypeKind::Function { .. } | TypeKind::FnDef(..) | TypeKind::Pointer { .. } | TypeKind::VolatilePtr {
                ..
            } => true,
            _ => false,
        };
        let t_ptr = match self.ctx.types.get(t_norm) {
            TypeKind::Function { .. } | TypeKind::FnDef(..) | TypeKind::Pointer { .. } | TypeKind::VolatilePtr {
                ..
            } => true,
            _ => false,
        };
        if f_ptr && t_ptr {
            if self.is_slice_pointer_value_type(t_norm) {
                self.report_cast(DiagCode::CastPointerToSlice, span);
            } else if self.is_closure_fat_pointer_value_type(t_norm) {
                if self.fat_pointer_cast_mutability_mismatch(from, to) {
                    self.report_cast(DiagCode::CastImmutableToMutClosure, span);
                    return ;
                }
                let ghost s0 = *self;
                if !self.can_cast_to_closure_fat_pointer(from, to) {
                    let ghost s1 = *self;
                    self.report(true, DiagCode::CastToClosure, span);
                    proof {
                        assert(s1.ctx.diags@.is_prefix_of(self.ctx.diags@)) by {
                            assert(s1.ctx.diags@ =~= self.ctx.diags@.subrange(0, s1.ctx.diags@.len() as int));
                        }
                        s1.lemma_reporting_from(*self);
                        s0.lemma_reporting_trans(s1, *self);
                    }
                }
            } else if self.is_trait_object_pointer_value_type(t_norm) {
                if self.fat_pointer_cast_mutability_mismatch(from, to) {
                    self.report_cast(DiagCode::CastImmutableToMutTraitObject, span);
                    return ;
                }
                let ghost s0 = *self;
                if !self.can_cast_to_trait_object_pointer(from, to) {
                    let ghost s1 = *self;
                    self.report_cast(DiagCode::CastToTraitObject, span);
                    proof {
                        s0.lemma_reporting_from(s1);
                        s0.lemma_reporting_trans(s1, *self);
                    }
                } else {
                    proof {
                        s0.lemma_reporting_from(*self);
                    }
                }
            }
            return ;
        }
        let f_norm = self.constrain_pointer_cast_integer(from);
        let f_int = f_norm == TY_USIZE || f_norm == TY_ISIZE;
        let t_int = t_norm == TY_USIZE || t_norm == TY_ISIZE;
        if f_ptr && t_int {
            return ;
        }
        if f_int && self.is_fat_pointer_value_type(t_norm) {
            self.report_cast(DiagCode::CastIntToFatPointer, span);
            return ;
        }
        if f_int && (self.is_address_pointer_type(t_norm) || self.is_object_pointer_type(t_norm)
            || self.is_function_pointer_type(t_norm)) {
            return ;
        }
        let f_num = self.ctx.types.is_integer(f_norm) || self.ctx.types.is_float(f_norm) || f_norm == TY_BOOL;
        let t_num = self.ctx.types.is_integer(t_norm) || self.ctx.types.is_float(t_norm);
        if f_num && t_num {
            return ;
        }
        self.report_cast(DiagCode::InvalidCast, span);
    }

    fn report_cast(&mut self, code: DiagCode, span: Span)
        requires
            old(self).wf(),
        ensures
            final(self).ctx.diags@ == old(self).ctx.diags@.push(Diagnostic { code, span }),
            old(self).same_but_diags(*final(self)),
            old(self).grows_reporting(*final(self)),
    {
        self.report(true, code, span);
        proof {
            assert(old(self).ctx.diags@ + crate::checker::diag_if(true, Diagnostic { code, span }) =~= old(
                self,
            ).ctx.diags@.push(Diagnostic { code, span }));
            assert(old(self).ctx.diags@.is_prefix_of(self.ctx.diags@)) by {
                assert(old(self).ctx.diags@ =~= self.ctx.diags@.subrange(0, old(self).ctx.diags@.len() as int));
            }
            old(self).lemma_reporting_from(*self);
        }
    }

    /// The type of `lhs as target_ty`: the cast is checked, and the target
    /// type is the result.
    pub fn check_as_expr(&mut self, lhs: &Expr, target_ty: TypeId) -> (r: TypeId)
        requires
            old(self).wf(),
            old(self).tvars_valid(),
            old(self).ctx.types.valid(lhs.ty),
            old(self).ctx.types.valid(target_ty),
        ensures
            r == target_ty,
            old(self).grows_reporting(*final(self)),
            final(self).tvars_valid(),
            old(self).cast_verdict(lhs.ty, target_ty) matches CastVerdict::Refused(c) ==> final(self).ctx.diags@.last()
                == (Diagnostic { code: c, span: lhs.span }),
            old(self).cast_verdict(lhs.ty, target_ty) is Allowed ==> final(self).ctx.diags == old(self).ctx.diags,
    {
        let ghost s0 = *self;
        self.check_cast(lhs.span, lhs.ty, target_ty);
        let ghost s1 = *self;
        let r = self.enrich_trait_object_pointer_cast_target(lhs.ty, target_ty);
        proof {
            s1.lemma_reporting_from(*self);
            s0.lemma_reporting_trans(s1, *self);
            s1.lemma_grows(*self, 0);
        }
        r
    }
}

} // verus!
