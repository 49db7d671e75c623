//! Implicit coercions: where a value of one type may stand where another is
//! expected. Pointers may lose mutability and point to `void`, a supertrait
//! object or a trait object of an implemented trait; slices may lose
//! mutability and arrays decay to slices; closures and functions convert to
//! each other's forms where their signatures agree.

use vstd::prelude::*;
use crate::types::{TypeId, SymbolId, DefId, TypeKind, PrimitiveType, children_below, same_kind, TY_ERROR, TY_NEVER};
use crate::ast::{Expr, ExprKind, UnaryOperator, Span};
use crate::context::{Def, DiagCode, Diagnostic};
use crate::checker::{ExprChecker, diag_if};
use crate::coercion::sig_compat;
use crate::subst::{copy_ids, copy_kind, map_in_registry, subst_rel};
use crate::traits::lemma_prefix_refl;
use crate::eval_state::find_entry;

verus! {

impl ExprChecker {
    /// `e` denotes a place that may be written through, or a value that is
    /// materialised in a fresh temporary of its own.
    pub open spec fn lvalue_mutable(self, e: Expr) -> bool
        decreases e,
    {
        match e.kind {
            ExprKind::Identifier(name) => match self.ctx.resolves_here(name) {
                Some(info) => info.is_mut,
                None => false,
            },
            ExprKind::Unary { op, operand } => op == UnaryOperator::PointerDeRef && match self.kind_of(
                operand.ty,
            ) {
                TypeKind::Pointer { is_mut, .. } | TypeKind::VolatilePtr { is_mut, .. } => is_mut,
                _ => false,
            },
            ExprKind::FieldAccess { lhs, .. } | ExprKind::IndexAccess { lhs, .. } => match self.kind_of(lhs.ty) {
                TypeKind::Pointer { is_mut, .. } | TypeKind::VolatilePtr { is_mut, .. } => is_mut,
                TypeKind::Slice { is_mut, .. } => is_mut,
                TypeKind::Array { is_mut, .. } | TypeKind::ArrayInfer { is_mut, .. } => is_mut || (
                lhs.kind is FieldAccess && self.lvalue_mutable(*lhs)),
                _ => self.lvalue_mutable(*lhs),
            },
            ExprKind::DataInit { .. } | ExprKind::Integer(_) | ExprKind::Bool(_) | ExprKind::Char(_)
            | ExprKind::ByteChar(_) | ExprKind::Call { .. } => true,
            _ => false,
        }
    }

    /// Whether `expr` may be borrowed mutably.
    pub fn is_lvalue_mutable(&self, expr: &Expr) -> (r: bool)
        requires
            self.wf(),
        ensures
            r == self.lvalue_mutable(*expr),
        decreases expr,
    {
        match &expr.kind {
            ExprKind::Identifier(name) => match self.ctx.resolve(*name) {
                Some(info) => info.is_mut,
                None => false,
            },
            ExprKind::Unary { op, operand } => {
                if *op != UnaryOperator::PointerDeRef {
                    return false;
                }
                let n = self.resolve_tv(operand.ty);
                match self.ctx.types.get(n) {
                    TypeKind::Pointer { is_mut, .. } | TypeKind::VolatilePtr { is_mut, .. } => *is_mut,
                    _ => false,
                }
            },
            ExprKind::FieldAccess { lhs, .. } | ExprKind::IndexAccess { lhs, .. } => {
                let n = self.resolve_tv(lhs.ty);
                match self.ctx.types.get(n) {
                    TypeKind::Pointer { is_mut, .. } | TypeKind::VolatilePtr { is_mut, .. } => *is_mut,
                    TypeKind::Slice { is_mut, .. } => *is_mut,
                    TypeKind::Array { is_mut, .. } | TypeKind::ArrayInfer { is_mut, .. } => {
                        if *is_mut {
                            true
                        } else {
                            match &lhs.kind {
                                ExprKind::FieldAccess { .. } => self.is_lvalue_mutable(lhs),
                                _ => false,
                            }
                        }
                    },
                    _ => self.is_lvalue_mutable(lhs),
                }
            },
            ExprKind::DataInit { .. } | ExprKind::Integer(_) | ExprKind::Bool(_) | ExprKind::Char(_)
            | ExprKind::ByteChar(_) | ExprKind::Call { .. } => true,
            _ => false,
        }
    }

    /// What the decay of an array of kind `act_kind` to a slice of
    /// `exp_elem` gives: `Ok(true)` where the element types agree and
    /// mutability is not gained, `Err(())` where they agree but a mutable
    /// slice is expected of an immutable array, `Ok(false)` otherwise.
    pub open spec fn array_decay(self, exp_is_mut: bool, exp_elem: TypeId, act_kind: TypeKind) -> Result<bool, ()> {
        match act_kind {
            TypeKind::Array { is_mut, elem, .. } => if self.resolved(exp_elem) == self.resolved(elem) {
                if exp_is_mut && !is_mut {
                    Err(())
                } else {
                    Ok(true)
                }
            } else {
                Ok(false)
            },
            _ => Ok(false),
        }
    }

    /// The decay of an array to a slice; the loss of mutability it would need
    /// is reported at `span`.
    pub fn check_array_decay(&mut self, exp_is_mut: bool, exp_elem: TypeId, act_kind: &TypeKind, span: Span) -> (r:
        Result<bool, ()>)
        requires
            old(self).wf(),
        ensures
            r == old(self).array_decay(exp_is_mut, exp_elem, *act_kind),
            final(self).ctx.diags@ == old(self).ctx.diags@ + diag_if(
                r is Err,
                Diagnostic { code: DiagCode::ImmutableArrayToMutSlice, span },
            ),
            old(self).same_but_diags(*final(self)),
    {
        match act_kind {
            TypeKind::Array { is_mut: act_mut, elem: act_elem, .. } => {
                let exp_base = self.resolve_tv(exp_elem);
                let act_base = self.resolve_tv(*act_elem);
                if exp_base == act_base {
                    let bad = exp_is_mut && !*act_mut;
                    self.report(bad, DiagCode::ImmutableArrayToMutSlice, span);
                    return if bad {
                        Err(())
                    } else {
                        Ok(true)
                    };
                }
            },
            _ => {},
        }
        self.report(false, DiagCode::ImmutableArrayToMutSlice, span);
        Ok(false)
    }

    /// A slice of the expected kind: one of the same elements that gains no
    /// mutability, or an array that decays to it.
    pub open spec fn slice_decay(self, exp_kind: TypeKind, act_kind: TypeKind) -> Result<bool, ()> {
        match exp_kind {
            TypeKind::Slice { is_mut: e_mut, elem: e_elem } => if (act_kind matches TypeKind::Slice {
                is_mut: a_mut,
                elem: a_elem,
            } && (!e_mut || a_mut) && self.resolved(e_elem) == self.resolved(a_elem)) {
                Ok(true)
            } else {
                self.array_decay(e_mut, e_elem, act_kind)
            },
            _ => Ok(false),
        }
    }

    /// Whether a value of kind `act_kind` coerces to a slice of kind
    /// `exp_kind`; an array that would gain mutability is reported.
    pub fn check_slice_and_array_decay(
        &mut self,
        expr: &Expr,
        exp: TypeId,
        exp_kind: &TypeKind,
        act_kind: &TypeKind,
    ) -> (r: bool)
        requires
            old(self).wf(),
        ensures
            r == (old(self).slice_decay(*exp_kind, *act_kind) == Ok::<bool, ()>(true)),
            final(self).ctx.diags@ == old(self).ctx.diags@ + diag_if(
                old(self).slice_decay(*exp_kind, *act_kind) is Err,
                Diagnostic { code: DiagCode::ImmutableArrayToMutSlice, span: expr.span },
            ),
            old(self).same_but_diags(*final(self)),
            !(*exp_kind is Slice) ==> *final(self) == *old(self),
    {
        match exp_kind {
            TypeKind::Slice { is_mut: e_mut, elem: exp_elem } => {
                match act_kind {
                    TypeKind::Slice { is_mut: act_mut, elem: act_elem } => {
                        if (!*e_mut || *act_mut) && self.resolve_tv(*exp_elem) == self.resolve_tv(*act_elem) {
                            proof {
                                assert(self.ctx.diags@ =~= self.ctx.diags@ + Seq::<Diagnostic>::empty());
                            }
                            return true;
                        }
                    },
                    _ => {},
                }
                match self.check_array_decay(*e_mut, *exp_elem, act_kind, expr.span) {
                    Ok(b) => b,
                    Err(()) => false,
                }
            },
            _ => {
                proof {
                    assert(self.ctx.diags@ =~= self.ctx.diags@ + Seq::<Diagnostic>::empty());
                }
                false
            },
        }
    }
}

proof fn lemma_prefix_len<T>(a: Seq<T>, b: Seq<T>)
    requires
        a.is_prefix_of(b),
    ensures
        a.len() <= b.len(),
{
}

/// The map from the generic parameters of a function to the arguments of an
/// instantiation, pairing them by position; where a name repeats, the last
/// pairing counts.
pub open spec fn fn_arg_map(generics: Seq<SymbolId>, args: Seq<TypeId>) -> Seq<(SymbolId, TypeId)> {
    let n = if generics.len() < args.len() {
        generics.len()
    } else {
        args.len()
    };
    Seq::new(n, |j: int| (generics[n - 1 - j], args[n - 1 - j]))
}

impl ExprChecker {
    /// What is wrong with the definition `def_id` as the function an `FnDef`
    /// type names: it is no function, it has no resolved signature, or that
    /// signature is no function type.
    pub open spec fn fn_def_problem(self, def_id: DefId) -> Option<DiagCode> {
        if def_id >= self.ctx.defs@.len() || !(self.ctx.defs@[def_id as int] is Function) {
            Some(DiagCode::FnDefNotFunction)
        } else {
            match self.ctx.defs@[def_id as int] {
                Def::Function(fd) => match fd.sig {
                    None => Some(DiagCode::FnDefWithoutSignature),
                    Some(sig) => if self.kind_of(sig) is Function {
                        None
                    } else {
                        Some(DiagCode::FnDefSignatureNotFunction)
                    },
                },
                _ => None,
            }
        }
    }

    /// The function definition `def_id`'s signature type, resolved, and its
    /// generic parameters.
    pub open spec fn fn_def_sig(self, def_id: DefId) -> (TypeKind, Seq<SymbolId>) {
        match self.ctx.defs@[def_id as int] {
            Def::Function(fd) => (self.kind_of(fd.sig.unwrap()), fd.generics@),
            _ => (TypeKind::Error, Seq::empty()),
        }
    }

    /// Emits a type mismatch at `span`.
    pub fn emit_mismatch_error(&mut self, span: Span, expected: TypeId, actual: TypeId)
        ensures
            final(self).ctx.diags@ == old(self).ctx.diags@.push(Diagnostic { code: DiagCode::MismatchedTypes, span }),
            old(self).same_but_diags(*final(self)),
    {
        self.report(true, DiagCode::MismatchedTypes, span);
        proof {
            assert(old(self).ctx.diags@ + seq![Diagnostic { code: DiagCode::MismatchedTypes, span }]
                =~= old(self).ctx.diags@.push(Diagnostic { code: DiagCode::MismatchedTypes, span }));
        }
    }

    /// The parameter and return types of the function definition `def_id`
    /// instantiated with `args`; `None` for a variadic one, and for a broken
    /// definition, which is reported at `span`.
    pub fn instantiate_fn_def_signature(&mut self, def_id: DefId, args: &Vec<TypeId>, span: Span) -> (r: Option<
        (Vec<TypeId>, TypeId),
    >)
        requires
            old(self).wf(),
            old(self).tvars_valid(),
        ensures
            old(self).grows_reporting(*final(self)),
            final(self).tvars_valid(),
            final(self).ctx.diags@ == old(self).ctx.diags@ + match old(self).fn_def_problem(def_id) {
                Some(c) => seq![Diagnostic { code: c, span }],
                None => Seq::empty(),
            },
            old(self).fn_def_problem(def_id) is Some ==> r is None,
            old(self).fn_def_problem(def_id) is None ==> (old(self).fn_def_sig(def_id).0 matches TypeKind::Function {
                params,
                ret,
                is_variadic,
            } && (is_variadic ==> r is None) && (!is_variadic && old(self).fn_def_sig(def_id).1.len() == 0
                ==> (r matches Some((ps, rt)) && ps@ == params@ && rt == ret)) && (r matches Some((ps, rt))
                ==> ps@.len() == params@.len() && subst_rel(
                final(self).ctx.types,
                fn_arg_map(old(self).fn_def_sig(def_id).1, args@),
                ret,
                rt,
            ) && forall|i: int|
                0 <= i < params@.len() ==> subst_rel(
                    final(self).ctx.types,
                    fn_arg_map(old(self).fn_def_sig(def_id).1, args@),
                    params@[i],
                    #[trigger] ps@[i],
                ))),
    {
        proof {
            lemma_prefix_refl(self.ctx.types.kinds());
            lemma_prefix_refl(self.ctx.diags@);
        }
        let (generics, sig) = if (def_id as usize) < self.ctx.defs.len() {
            match &self.ctx.defs[def_id as usize] {
                Def::Function(fd) => (copy_ids(&fd.generics), Some(fd.sig)),
                _ => (Vec::new(), None),
            }
        } else {
            (Vec::new(), None)
        };
        let sig = match sig {
            Some(s) => s,
            None => {
                self.report(true, DiagCode::FnDefNotFunction, span);
                return None;
            },
        };
        let sig_ty = match sig {
            Some(t) => t,
            None => {
                self.report(true, DiagCode::FnDefWithoutSignature, span);
                return None;
            },
        };
        let norm_sig = self.resolve_tv(sig_ty);
        proof {
            assert(children_below(self.ctx.types.kinds()[norm_sig as int], norm_sig as int));
        }
        let (params, ret, is_variadic) = match self.ctx.types.get(norm_sig) {
            TypeKind::Function { params, ret, is_variadic } => (copy_ids(params), *ret, *is_variadic),
            _ => {
                self.report(true, DiagCode::FnDefSignatureNotFunction, span);
                return None;
            },
        };
        proof {
            assert(self.ctx.diags@ =~= old(self).ctx.diags@ + Seq::<Diagnostic>::empty());
            assert(old(self).fn_def_problem(def_id) is None);
            assert(old(self).fn_def_sig(def_id).0 == self.ctx.types.kind(norm_sig));
            assert(old(self).fn_def_sig(def_id).1 == generics@);
            assert(forall|j: int| 0 <= j < params@.len() ==> #[trigger] params@[j] < norm_sig);
        }
        if is_variadic {
            return None;
        }
        if generics.len() == 0 {
            proof {
                assert forall|i: int| 0 <= i < params@.len() implies subst_rel(
                    self.ctx.types,
                    fn_arg_map(generics@, args@),
                    params@[i],
                    #[trigger] params@[i],
                ) by {
                    assert(fn_arg_map(generics@, args@) =~= Seq::<(SymbolId, TypeId)>::empty());
                    crate::subst::lemma_subst_empty(self.ctx.types, params@[i]);
                }
                assert(fn_arg_map(generics@, args@) =~= Seq::<(SymbolId, TypeId)>::empty());
                crate::subst::lemma_subst_empty(self.ctx.types, ret);
            }
            return Some((params, ret));
        }
        let n = if generics.len() < args.len() {
            generics.len()
        } else {
            args.len()
        };
        let mut map: Vec<(SymbolId, TypeId)> = Vec::new();
        let mut k: usize = n;
        while k > 0
            invariant
                k <= n,
                n <= generics@.len(),
                n <= args@.len(),
                n == (if generics@.len() < args@.len() {
                    generics@.len()
                } else {
                    args@.len()
                }),
                map@ == fn_arg_map(generics@, args@).subrange(0, (n - k) as int),
            decreases k,
        {
            k = k - 1;
            map.push((generics[k], args[k]));
            assert(map@ =~= fn_arg_map(generics@, args@).subrange(0, (n - k) as int));
        }
        assert(map@ =~= fn_arg_map(generics@, args@));
        if !map_in_registry(&self.ctx.types, &map) {
            return None;
        }
        let ghost s0 = *self;
        let mut out: Vec<TypeId> = Vec::new();
        let mut i: usize = 0;
        while i < params.len()
            invariant
                s0.wf(),
                s0.tvars_valid(),
                old(self).grows_reporting(s0),
                s0.grows_reporting(*self),
                self.wf(),
                self.ctx.diags == s0.ctx.diags,
                s0.ctx.diags@ == old(self).ctx.diags@,
                old(self).fn_def_problem(def_id) is None,
                old(self).fn_def_sig(def_id).0 matches TypeKind::Function { params: p, ret: rr, is_variadic: v }
                    && p@ == params@ && rr == ret && !v,
                old(self).fn_def_sig(def_id).1 == generics@,
                generics@.len() > 0,
                map@ == fn_arg_map(generics@, args@),
                crate::subst::map_valid(self.ctx.types, map@),
                forall|j: int| 0 <= j < params@.len() ==> s0.ctx.types.valid(#[trigger] params@[j]),
                i <= params@.len(),
                out@.len() == i,
                forall|j: int| 0 <= j < i ==> subst_rel(self.ctx.types, map@, params@[j], #[trigger] out@[j]),
            decreases params@.len() - i,
        {
            let ghost before = *self;
            proof {
                lemma_prefix_len(s0.ctx.types.kinds(), before.ctx.types.kinds());
            }
            match self.ctx.types.substitute(&map, params[i]) {
                Some(x) => {
                    proof {
                        assert forall|j: int| 0 <= j < i implies subst_rel(
                            self.ctx.types,
                            map@,
                            params@[j],
                            #[trigger] out@[j],
                        ) by {
                            crate::subst::lemma_subst_grow(before.ctx.types, self.ctx.types, map@, params@[j], out@[j]);
                        }
                    }
                    out.push(x);
                },
                None => {
                    proof {
                        before.lemma_reporting_from(*self);
                    }
                    return None;
                },
            }
            i = i + 1;
        }
        let ghost before = *self;
        proof {
            lemma_prefix_len(s0.ctx.types.kinds(), before.ctx.types.kinds());
        }
        let rt = match self.ctx.types.substitute(&map, ret) {
            Some(x) => x,
            None => {
                return None;
            },
        };
        proof {
            assert forall|j: int| 0 <= j < params@.len() implies subst_rel(
                self.ctx.types,
                map@,
                params@[j],
                #[trigger] out@[j],
            ) by {
                crate::subst::lemma_subst_grow(before.ctx.types, self.ctx.types, map@, params@[j], out@[j]);
            }
        }
        Some((out, rt))
    }
}

impl ExprChecker {
    /// The signature a function-like value of kind `act_kind` has: that of a
    /// non-variadic function type, or of the instantiated function an `FnDef`
    /// names.
    pub fn extract_fn_sig_for_bnc(&mut self, act_kind: &TypeKind, span: Span) -> (r: Option<(Vec<TypeId>, TypeId)>)
        requires
            old(self).wf(),
            old(self).tvars_valid(),
        ensures
            old(self).grows_reporting(*final(self)),
            final(self).tvars_valid(),
            *act_kind matches TypeKind::Function { params, ret, is_variadic } ==> (if is_variadic {
                r is None
            } else {
                r matches Some((ps, rt)) && ps@ == params@ && rt == ret
            }) && *final(self) == *old(self),
            !(*act_kind is Function || *act_kind is FnDef) ==> r is None && *final(self) == *old(self),
    {
        proof {
            lemma_prefix_refl(self.ctx.types.kinds());
            lemma_prefix_refl(self.ctx.diags@);
        }
        match act_kind {
            TypeKind::FnDef(def_id, args) => self.instantiate_fn_def_signature(*def_id, args, span),
            TypeKind::Function { params, ret, is_variadic } => if *is_variadic {
                None
            } else {
                Some((copy_ids(params), *ret))
            },
            _ => None,
        }
    }

    /// Whether a function-like value of kind `act_kind` converts to a closure
    /// interface of the expected signature.
    pub fn check_fn_like_to_closure_interface(
        &mut self,
        expected_params: &Vec<TypeId>,
        expected_ret: TypeId,
        act_kind: &TypeKind,
        span: Span,
    ) -> (r: bool)
        requires
            old(self).wf(),
            old(self).tvars_valid(),
        ensures
            old(self).grows_reporting(*final(self)),
            final(self).tvars_valid(),
            *act_kind matches TypeKind::Function { params, ret, is_variadic } ==> r == (!is_variadic
                && sig_compat(
                old(self).ctx.types,
                old(self).type_vars@,
                expected_params@,
                expected_ret,
                params@,
                ret,
                old(self).unify_depth(),
            )) && *final(self) == *old(self),
            !(*act_kind is Function || *act_kind is FnDef) ==> !r && *final(self) == *old(self),
    {
        match self.extract_fn_sig_for_bnc(act_kind, span) {
            Some((ps, rt)) => self.signatures_compatible(expected_params, expected_ret, &ps, rt),
            None => false,
        }
    }

    /// Whether a closure of kind `act_kind` converts to a pointer to a
    /// closure interface of the expected signature; a mutable one needs a
    /// closure that may be borrowed mutably, and the lack is reported.
    pub fn check_state_to_closure_interface(
        &mut self,
        expr: &Expr,
        expected_mut: bool,
        expected_params: &Vec<TypeId>,
        expected_ret: TypeId,
        act_kind: &TypeKind,
    ) -> (r: bool)
        requires
            old(self).wf(),
        ensures
            old(self).same_but_diags(*final(self)),
            *act_kind matches TypeKind::AnonymousState { params, ret, .. } ==> (if expected_mut
                && !old(self).lvalue_mutable(*expr) {
                !r && final(self).ctx.diags@ == old(self).ctx.diags@.push(
                    Diagnostic { code: DiagCode::ImmutableClosureAsMutClosure, span: expr.span },
                )
            } else {
                r == sig_compat(
                    old(self).ctx.types,
                    old(self).type_vars@,
                    expected_params@,
                    expected_ret,
                    params@,
                    ret,
                    old(self).unify_depth(),
                ) && final(self).ctx.diags@ == old(self).ctx.diags@
            }),
            !(*act_kind is AnonymousState) ==> !r && final(self).ctx.diags@ == old(self).ctx.diags@,
    {
        match act_kind {
            TypeKind::AnonymousState { params, ret, .. } => {
                if expected_mut && !self.is_lvalue_mutable(expr) {
                    self.report(true, DiagCode::ImmutableClosureAsMutClosure, expr.span);
                    proof {
                        assert(old(self).ctx.diags@ + seq![
                            Diagnostic { code: DiagCode::ImmutableClosureAsMutClosure, span: expr.span },
                        ] =~= self.ctx.diags@);
                    }
                    return false;
                }
                self.report(false, DiagCode::ImmutableClosureAsMutClosure, expr.span);
                proof {
                    assert(old(self).ctx.diags@ + Seq::<Diagnostic>::empty() =~= self.ctx.diags@);
                }
                self.signatures_compatible(expected_params, expected_ret, params, *ret)
            },
            _ => {
                self.report(false, DiagCode::ImmutableClosureAsMutClosure, expr.span);
                proof {
                    assert(old(self).ctx.diags@ + Seq::<Diagnostic>::empty() =~= self.ctx.diags@);
                }
                false
            },
        }
    }

    /// Whether a value of kind `act_kind` converts to an expected function
    /// type (of kind `exp_kind`) or to a pointer to a closure interface.
    pub fn check_closure_coercions(&mut self, expr: &Expr, exp_kind: &TypeKind, act_kind: &TypeKind) -> (r: bool)
        requires
            old(self).wf(),
            old(self).tvars_valid(),
        ensures
            old(self).grows_reporting(*final(self)),
            final(self).tvars_valid(),
            r ==> (*exp_kind matches TypeKind::Function { is_variadic, .. } && !is_variadic) || *exp_kind is Pointer,
            (*exp_kind matches TypeKind::Function { params: ep, ret: er, is_variadic: false }
                && *act_kind matches TypeKind::AnonymousState { captures, params, ret } && captures@.len() == 0
                && sig_compat(
                old(self).ctx.types,
                old(self).type_vars@,
                ep@,
                er,
                params@,
                ret,
                old(self).unify_depth(),
            )) ==> r,
            (*exp_kind matches TypeKind::Function { params: ep, ret: er, is_variadic: false }
                && *act_kind matches TypeKind::Function { params, ret, is_variadic: false } && sig_compat(
                old(self).ctx.types,
                old(self).type_vars@,
                ep@,
                er,
                params@,
                ret,
                old(self).unify_depth(),
            )) ==> r,
    {
        proof {
            lemma_prefix_refl(self.ctx.types.kinds());
            lemma_prefix_refl(self.ctx.diags@);
        }
        match exp_kind {
            TypeKind::Function { params: e_params, ret: e_ret, is_variadic: false } => {
                if self.check_closure_decay_to_function(e_params, *e_ret, act_kind) {
                    return true;
                }
                return self.check_fn_like_to_closure_interface(e_params, *e_ret, act_kind, expr.span);
            },
            TypeKind::Pointer { is_mut: e_mut, elem: e_inner } => {
                let e_norm = self.resolve_tv(*e_inner);
                let iface = match self.ctx.types.get(e_norm) {
                    TypeKind::ClosureInterface { params, ret } => Some((copy_ids(params), *ret)),
                    _ => None,
                };
                if let Some((e_params, e_ret)) = iface {
                    let ghost s0 = *self;
                    if self.check_state_to_closure_interface(expr, *e_mut, &e_params, e_ret, act_kind) {
                        proof {
                            s0.lemma_reporting_from(*self);
                        }
                        return true;
                    }
                    let ghost s1 = *self;
                    proof {
                        s0.lemma_reporting_from(s1);
                        s0.lemma_grows_reporting(s1, 0);
                    }
                    let r = self.check_fn_like_to_closure_interface(&e_params, e_ret, act_kind, expr.span);
                    proof {
                        s0.lemma_reporting_trans(s1, *self);
                    }
                    return r;
                }
                false
            },
            _ => false,
        }
    }
}

impl ExprChecker {
    /// Whether a value of kind `act_kind` (the kind of `actual_ty`), not a
    /// pointer, may be borrowed as a pointer to the trait object
    /// `expected_elem`: the pointer to it must implement the trait, and a
    /// mutable borrow needs a mutable place, whose lack is reported.
    pub fn check_value_to_trait_object_pointer(
        &mut self,
        expr: &Expr,
        expected_mut: bool,
        expected_elem: TypeId,
        actual_ty: TypeId,
        act_kind: &TypeKind,
    ) -> (r: bool)
        requires
            old(self).wf(),
            old(self).tvars_valid(),
            old(self).ctx.types.valid(expected_elem),
            old(self).ctx.types.valid(actual_ty),
        ensures
            old(self).grows_reporting(*final(self)),
            final(self).tvars_valid(),
            r ==> old(self).ctx.types.kind(expected_elem) is TraitObject && !(*act_kind is Pointer
                || *act_kind is VolatilePtr) && (!expected_mut || old(self).lvalue_mutable(*expr)),
            (old(self).ctx.types.kind(expected_elem) is TraitObject && !(*act_kind is Pointer
                || *act_kind is VolatilePtr) && expected_mut && !old(self).lvalue_mutable(*expr)) ==> !r
                && final(self).ctx.diags@ == old(self).ctx.diags@.push(
                Diagnostic { code: DiagCode::ImmutableBorrowAsMutTraitObject, span: expr.span },
            ) && final(self).ctx.types == old(self).ctx.types,
    {
        proof {
            lemma_prefix_refl(self.ctx.types.kinds());
            lemma_prefix_refl(self.ctx.diags@);
        }
        match self.ctx.types.get(expected_elem) {
            TypeKind::TraitObject(..) => {},
            _ => {
                return false;
            },
        }
        match act_kind {
            TypeKind::Pointer { .. } | TypeKind::VolatilePtr { .. } => {
                return false;
            },
            _ => {},
        }
        if expected_mut && !self.is_lvalue_mutable(expr) {
            self.report(true, DiagCode::ImmutableBorrowAsMutTraitObject, expr.span);
            proof {
                assert(old(self).ctx.diags@ + seq![
                    Diagnostic { code: DiagCode::ImmutableBorrowAsMutTraitObject, span: expr.span },
                ] =~= self.ctx.diags@);
                lemma_prefix_refl(self.ctx.diags@);
                crate::simd::lemma_prefix_append(old(self).ctx.diags@, seq![
                    Diagnostic { code: DiagCode::ImmutableBorrowAsMutTraitObject, span: expr.span },
                ]);
            }
            return false;
        }
        let virtual_ptr = match self.intern_ty(TypeKind::Pointer { is_mut: expected_mut, elem: actual_ty }) {
            Some(t) => t,
            None => {
                proof {
                    old(self).lemma_reporting_from(*self);
                    old(self).lemma_grows(*self, 0);
                }
                return false;
            },
        };
        let ghost s1 = *self;
        proof {
            old(self).lemma_grows(s1, 0);
        }
        let r = self.check_trait_impl(virtual_ptr, expected_elem);
        proof {
            old(self).lemma_grows_trans(s1, *self);
            old(self).lemma_reporting_from(*self);
        }
        r
    }

    /// Whether a pointer of kind `act_kind` coerces to the pointer type `exp`
    /// of kind `exp_kind`, or a value of it may be borrowed as one.
    pub fn check_pointer_coercions(
        &mut self,
        expr: &Expr,
        exp: TypeId,
        act: TypeId,
        exp_kind: &TypeKind,
        act_kind: &TypeKind,
    ) -> (r: bool)
        requires
            old(self).wf(),
            old(self).tvars_valid(),
            old(self).ctx.types.valid(exp),
            old(self).ctx.types.valid(act),
            same_kind(*exp_kind, old(self).ctx.types.kind(exp)),
            same_kind(*act_kind, old(self).ctx.types.kind(act)),
        ensures
            old(self).grows_reporting(*final(self)),
            final(self).tvars_valid(),
            r ==> *exp_kind is Pointer,
            !(*exp_kind is Pointer) ==> *final(self) == *old(self),
            (*exp_kind matches TypeKind::Pointer { is_mut: em, elem: ei } && *act_kind matches TypeKind::Pointer {
                is_mut: am,
                elem: ae,
            } && (!em || am) && (old(self).resolved(ei) == old(self).resolved(ae) || old(self).kind_of(ei)
                == TypeKind::Primitive(PrimitiveType::Void))) ==> r,
    {
        proof {
            lemma_prefix_refl(self.ctx.types.kinds());
            lemma_prefix_refl(self.ctx.diags@);
        }
        match exp_kind {
            TypeKind::Pointer { is_mut: e_mut, elem: e_inner } => {
                proof {
                    assert(children_below(self.ctx.types.kinds()[exp as int], exp as int));
                }
                let e_norm = self.resolve_tv(*e_inner);
                let ghost s0 = *self;
                if self.check_pointer_to_pointer_coercion(*e_mut, e_norm, act, act_kind) {
                    proof {
                        s0.lemma_reporting_from(*self);
                    }
                    return true;
                }
                let ghost s1 = *self;
                proof {
                    s0.lemma_reporting_from(s1);
                    s0.lemma_grows_reporting(s1, e_norm);
                    s0.lemma_grows_reporting(s1, act);
                }
                let r = self.check_value_to_trait_object_pointer(expr, *e_mut, e_norm, act, act_kind);
                proof {
                    s0.lemma_reporting_trans(s1, *self);
                }
                r
            },
            _ => false,
        }
    }

    /// Whether a volatile pointer of kind `act_kind` coerces to the volatile
    /// pointer type of kind `exp_kind`: to the same element, to `void`, to a
    /// supertrait object or to a trait object of a trait it implements.
    pub fn check_volatile_coercions(
        &mut self,
        expr: &Expr,
        exp: TypeId,
        act: TypeId,
        exp_kind: &TypeKind,
        act_kind: &TypeKind,
    ) -> (r: bool)
        requires
            old(self).wf(),
            old(self).tvars_valid(),
            old(self).ctx.types.valid(exp),
            old(self).ctx.types.valid(act),
            same_kind(*exp_kind, old(self).ctx.types.kind(exp)),
            same_kind(*act_kind, old(self).ctx.types.kind(act)),
        ensures
            old(self).grows_to(*final(self)),
            final(self).tvars_valid(),
            !(*exp_kind is VolatilePtr) ==> *final(self) == *old(self),
            r ==> (*exp_kind matches TypeKind::VolatilePtr { is_mut: em, .. } && *act_kind matches TypeKind::VolatilePtr {
                is_mut: am,
                ..
            } && (!em || am)),
            (*exp_kind matches TypeKind::VolatilePtr { is_mut: em, elem: ei } && *act_kind matches TypeKind::VolatilePtr {
                is_mut: am,
                elem: ae,
            } && (!em || am) && (old(self).resolved(ei) == old(self).resolved(ae) || old(self).kind_of(ei)
                == TypeKind::Primitive(PrimitiveType::Void))) ==> r,
    {
        proof {
            lemma_prefix_refl(self.ctx.types.kinds());
            assert(children_below(self.ctx.types.kinds()[exp as int], exp as int));
            assert(children_below(self.ctx.types.kinds()[act as int], act as int));
        }
        let (e_mut, e_inner) = match exp_kind {
            TypeKind::VolatilePtr { is_mut, elem } => (*is_mut, *elem),
            _ => {
                return false;
            },
        };
        let (a_mut, a_inner) = match act_kind {
            TypeKind::VolatilePtr { is_mut, elem } => (*is_mut, *elem),
            _ => {
                return false;
            },
        };
        if e_mut && !a_mut {
            return false;
        }
        let e_norm = self.resolve_tv(e_inner);
        let a_norm = self.resolve_tv(a_inner);
        if e_norm == a_norm || self.ctx.types.is_void(e_norm) {
            return true;
        }
        let e_trait = match self.ctx.types.get(e_norm) {
            TypeKind::TraitObject(..) => true,
            _ => false,
        };
        let a_trait = match self.ctx.types.get(a_norm) {
            TypeKind::TraitObject(..) => true,
            _ => false,
        };
        let ghost s0 = *self;
        if e_trait && a_trait && self.is_trait_object_upcast(a_norm, e_norm) {
            return true;
        }
        if e_trait {
            let ghost s1 = *self;
            proof {
                s0.lemma_grows(s1, e_norm);
            }
            let r = self.check_trait_impl(act, e_norm);
            proof {
                old(self).lemma_grows_trans(s1, *self);
            }
            return r;
        }
        false
    }
}

/// A type no coercion leads to other than from itself: no pointer, volatile
/// pointer, slice or function type.
pub open spec fn plain_target(k: TypeKind) -> bool {
    !(k is Pointer) && !(k is VolatilePtr) && !(k is Slice) && !(k is Function)
}

impl ExprChecker {
    /// `actual` stands for `expected` without further ado: they resolve to
    /// the same type, either is the error type, or `actual` never returns.
    pub open spec fn trivially_coerces(self, expected: TypeId, actual: TypeId) -> bool {
        let e = self.resolved(expected);
        let a = self.resolved(actual);
        e == a || e == TY_ERROR || a == TY_ERROR || a == TY_NEVER
    }

    /// One side resolves to an inference variable, which the coercion binds.
    pub open spec fn binds_var(self, expected: TypeId, actual: TypeId) -> bool {
        self.kind_of(actual) is TypeVar || self.kind_of(expected) is TypeVar
    }

    /// Whether a value `expr` of type `actual` may stand where `expected` is
    /// expected; a mismatch is reported at the value.
    pub fn check_coercion(&mut self, expr: &Expr, expected: TypeId, actual: TypeId) -> (r: bool)
        requires
            old(self).wf(),
            old(self).tvars_valid(),
            old(self).ctx.types.valid(expected),
            old(self).ctx.types.valid(actual),
            old(self).kind_of(actual) matches TypeKind::TypeVar(v) ==> v < old(self).type_vars@.len(),
            old(self).kind_of(expected) matches TypeKind::TypeVar(v) ==> v < old(self).type_vars@.len(),
        ensures
            old(self).trivially_coerces(expected, actual) ==> r && *final(self) == *old(self),
            !old(self).trivially_coerces(expected, actual) && old(self).binds_var(expected, actual) ==> r
                && final(self).ctx == old(self).ctx && final(self).wf() && final(self).active_bounds == old(
                self,
            ).active_bounds && final(self).impls == old(self).impls && final(self).current_module_cache == old(
                self,
            ).current_module_cache && (match old(self).kind_of(actual) {
                TypeKind::TypeVar(v) => final(self).type_vars@ == old(self).type_vars@.update(
                    v as int,
                    Some(old(self).resolved(expected)),
                ),
                _ => match old(self).kind_of(expected) {
                    TypeKind::TypeVar(v) => final(self).type_vars@ == old(self).type_vars@.update(
                        v as int,
                        Some(old(self).resolved(actual)),
                    ),
                    _ => false,
                },
            }),
            !old(self).trivially_coerces(expected, actual) && !old(self).binds_var(expected, actual) ==> old(
                self,
            ).grows_reporting(*final(self)) && final(self).tvars_valid() && (!r ==> final(self).ctx.diags@.len() > old(self).ctx.diags@.len()
                && final(self).ctx.diags@.last() == Diagnostic { code: DiagCode::MismatchedTypes, span: expr.span }),
            (old(self).kind_of(expected) matches TypeKind::Pointer { is_mut: em, elem: ei }
                && old(self).kind_of(actual) matches TypeKind::Pointer { is_mut: am, elem: ae } && (!em || am)
                && (old(self).resolved(ei) == old(self).resolved(ae) || old(self).kind_of(ei)
                == TypeKind::Primitive(PrimitiveType::Void))) ==> r,
            old(self).slice_decay(old(self).kind_of(expected), old(self).kind_of(actual)) == Ok::<bool, ()>(
                true,
            ) ==> r,
            (old(self).kind_of(expected) matches TypeKind::Function { params: ep, ret: er, is_variadic: false }
                && old(self).kind_of(actual) matches TypeKind::AnonymousState { captures, params, ret }
                && captures@.len() == 0 && sig_compat(
                old(self).ctx.types,
                old(self).type_vars@,
                ep@,
                er,
                params@,
                ret,
                old(self).unify_depth(),
            )) ==> r,
            !old(self).trivially_coerces(expected, actual) && !old(self).binds_var(expected, actual)
                && plain_target(old(self).kind_of(expected)) ==> !r,
    {
        let exp = self.resolve_tv(expected);
        let act = self.resolve_tv(actual);
        if exp == act || exp == TY_ERROR || act == TY_ERROR {
            return true;
        }
        if act == TY_NEVER {
            return true;
        }
        let exp_kind = copy_kind(self.ctx.types.get(exp));
        let act_kind = copy_kind(self.ctx.types.get(act));
        if self.check_type_var(exp, act) {
            return true;
        }
        let ghost s0 = *self;
        proof {
            lemma_prefix_refl(self.ctx.diags@);
            lemma_prefix_refl(self.ctx.types.kinds());
        }
        if self.check_pointer_coercions(expr, exp, act, &exp_kind, &act_kind) {
            return true;
        }
        let ghost s1 = *self;
        proof {
            s0.lemma_grows_reporting(s1, exp);
            s0.lemma_grows_reporting(s1, act);
        }
        if self.check_volatile_coercions(expr, exp, act, &exp_kind, &act_kind) {
            proof {
                s1.lemma_reporting_from(*self);
                s0.lemma_reporting_trans(s1, *self);
            }
            return true;
        }
        let ghost s2 = *self;
        proof {
            s1.lemma_reporting_from(s2);
            s0.lemma_reporting_trans(s1, s2);
            s0.lemma_grows_reporting(s2, 0);
        }
        if self.check_slice_and_array_decay(expr, exp, &exp_kind, &act_kind) {
            proof {
                s2.lemma_reporting_from(*self);
                s0.lemma_reporting_trans(s2, *self);
            }
            return true;
        }
        let ghost s3 = *self;
        proof {
            s2.lemma_reporting_from(s3);
            s0.lemma_reporting_trans(s2, s3);
            s0.lemma_grows_reporting(s3, 0);
        }
        if self.check_closure_coercions(expr, &exp_kind, &act_kind) {
            proof {
                s0.lemma_reporting_trans(s3, *self);
            }
            return true;
        }
        let ghost s4 = *self;
        proof {
            s0.lemma_reporting_trans(s3, s4);
            s0.lemma_grows_reporting(s4, 0);
        }
        self.emit_mismatch_error(expr.span, expected, actual);
        proof {
            s4.lemma_reporting_from(*self);
            s0.lemma_reporting_trans(s4, *self);
        }
        false
    }
}

} // verus!
