//! Checking a call: the callee's signature is deduced, the argument count
//! and the receiver are checked, the compiler intrinsics that take their own
//! checks get them, and every other argument is coerced to its parameter.

use vstd::prelude::*;
use crate::types::{TypeId, SymbolId, DefId, TypeKind, TypeRegistry, children_below, ids_below, TY_ERROR, TY_I8, TY_I16, TY_U8, TY_U16, TY_F32};
use crate::context::{Def, Diagnostic, DiagCode, Intrinsic};
use crate::ast::{Expr, ExprKind, Span};
use crate::checker::{ExprChecker, tv_chain, lemma_tv_chain_valid};
use crate::coerce::plain_target;
use crate::inline_asm::{AsmFieldNames, untyped_struct};
use crate::subst::lemma_prefix_kind;
use crate::traits::{lemma_prefix_refl, lemma_norm_grow};
use crate::eval::lemma_prefix_trans;

verus! {

/// The return type of a callable type of kind `k`: a function type, or a
/// pointer to a closure interface.
pub open spec fn callable_ret(types: TypeRegistry, k: TypeKind) -> Option<TypeId> {
    match k {
        TypeKind::Function { ret, .. } => Some(ret),
        TypeKind::Pointer { elem, .. } | TypeKind::VolatilePtr { elem, .. } => match types.kind(types.norm(elem)) {
            TypeKind::ClosureInterface { ret, .. } => Some(ret),
            _ => None,
        },
        _ => None,
    }
}

/// The diagnostic, if any, of `n_args` arguments given where `n_params`
/// parameters are declared, the first being the receiver of a method.
pub open spec fn arity_problem(n_args: nat, n_params: nat, is_method: bool, is_variadic: bool) -> Option<DiagCode> {
    let expected = if is_method {
        if n_params >= 1 {
            (n_params - 1) as nat
        } else {
            0
        }
    } else {
        n_params
    };
    if is_variadic {
        if n_args < expected {
            Some(DiagCode::ArgCountMismatchAtLeast)
        } else {
            None
        }
    } else if n_args != expected {
        Some(DiagCode::ArgCountMismatch)
    } else {
        None
    }
}

impl ExprChecker {
    /// `after` is `self` with types added, inference variables bound and
    /// diagnostics added, and nothing else changed.
    pub open spec fn advances_to(self, after: Self) -> bool {
        &&& after.wf()
        &&& after.tvars_valid()
        &&& self.ctx.types.kinds().is_prefix_of(after.ctx.types.kinds())
        &&& after.ctx.types.ptr_bytes() == self.ctx.types.ptr_bytes()
        &&& after.ctx.defs == self.ctx.defs
        &&& after.ctx.scopes == self.ctx.scopes
        &&& after.ctx.current_scope == self.ctx.current_scope
        &&& self.ctx.diags@.is_prefix_of(after.ctx.diags@)
        &&& after.ctx.max_atomic_bits == self.ctx.max_atomic_bits
        &&& after.type_vars@.len() == self.type_vars@.len()
        &&& after.active_bounds == self.active_bounds
        &&& after.impls == self.impls
        &&& after.current_module_cache == self.current_module_cache
    }

    pub proof fn lemma_advances_trans(self, mid: Self, after: Self)
        requires
            self.advances_to(mid),
            mid.advances_to(after),
        ensures
            self.advances_to(after),
    {
        lemma_prefix_trans(self.ctx.types.kinds(), mid.ctx.types.kinds(), after.ctx.types.kinds());
        lemma_prefix_trans(self.ctx.diags@, mid.ctx.diags@, after.ctx.diags@);
    }

    pub proof fn lemma_advances_from(self, after: Self)
        requires
            self.wf(),
            self.tvars_valid(),
            self.grows_reporting(after),
            after.tvars_valid(),
        ensures
            self.advances_to(after),
    {
    }

    pub proof fn lemma_advances_refl(self)
        requires
            self.wf(),
            self.tvars_valid(),
        ensures
            self.advances_to(self),
    {
        lemma_prefix_refl(self.ctx.types.kinds());
        lemma_prefix_refl(self.ctx.diags@);
    }

    /// An inference variable `t` resolves to, if any, is one the checker
    /// has.
    pub open spec fn var_in_range(self, t: TypeId) -> bool {
        self.kind_of(t) matches TypeKind::TypeVar(v) ==> v < self.type_vars@.len()
    }

    fn var_is_in_range(&self, t: TypeId) -> (r: bool)
        requires
            self.wf(),
        ensures
            r == self.var_in_range(t),
    {
        let n = self.resolve_tv(t);
        match self.ctx.types.get(n) {
            TypeKind::TypeVar(v) => (*v as usize) < self.type_vars.len(),
            _ => true,
        }
    }

    /// Coerces the value `expr` of type `actual` to `expected`, as
    /// `check_coercion` does; a type that resolves to an inference variable
    /// the checker does not have is let through.
    fn coerce_arg(&mut self, expr: &Expr, expected: TypeId, actual: TypeId) -> (r: bool)
        requires
            old(self).wf(),
            old(self).tvars_valid(),
            old(self).ctx.types.valid(expected),
            old(self).ctx.types.valid(actual),
        ensures
            old(self).advances_to(*final(self)),
            old(self).trivially_coerces(expected, actual) ==> r && *final(self) == *old(self),
            !(old(self).var_in_range(expected) && old(self).var_in_range(actual)) ==> r && *final(self) == *old(self),
            old(self).var_in_range(expected) && old(self).var_in_range(actual) && old(self).binds_var(expected, actual)
                ==> r,
            old(self).var_in_range(expected) && old(self).var_in_range(actual) && !old(self).trivially_coerces(
                expected,
                actual,
            ) && !old(self).binds_var(expected, actual) && plain_target(old(self).kind_of(expected)) ==> !r,
            !r ==> final(self).ctx.diags@.len() > 0 && final(self).ctx.diags@.last() == (Diagnostic {
                code: DiagCode::MismatchedTypes,
                span: expr.span,
            }),
    {
        proof {
            old(self).lemma_advances_refl();
        }
        if !self.var_is_in_range(expected) || !self.var_is_in_range(actual) {
            return true;
        }
        let r = self.check_coercion(expr, expected, actual);
        proof {
            if !old(self).trivially_coerces(expected, actual) {
                if old(self).binds_var(expected, actual) {
                    lemma_prefix_refl(self.ctx.types.kinds());
                    lemma_prefix_refl(self.ctx.diags@);
                    let e = old(self).resolved(expected);
                    let a = old(self).resolved(actual);
                    lemma_tv_chain_valid(old(self).ctx.types, old(self).type_vars@, expected, old(self).type_vars@.len());
                    lemma_tv_chain_valid(old(self).ctx.types, old(self).type_vars@, actual, old(self).type_vars@.len());
                    assert forall|v: int| 0 <= v < self.type_vars@.len() implies (#[trigger] self.type_vars@[v] matches Some(
                        x,
                    ) ==> self.ctx.types.valid(x)) by {
                        if self.type_vars@[v] != old(self).type_vars@[v] {
                            assert(self.type_vars@[v] == Some(e) || self.type_vars@[v] == Some(a));
                        }
                    }
                } else {
                    old(self).lemma_advances_from(*self);
                }
            }
        }
        r
    }

    /// Reports a call of `arg_count` arguments to a callee of `param_count`
    /// parameters, the first of which, for a method, is the receiver: too few
    /// for a variadic callee, any other count for another.
    pub fn check_call_arity(&mut self, arg_count: usize, param_count: usize, is_method: bool, is_variadic: bool, span: Span)
        ensures
            old(self).same_but_diags(*final(self)),
            final(self).ctx.diags@ == old(self).ctx.diags@ + match arity_problem(
                arg_count as nat,
                param_count as nat,
                is_method,
                is_variadic,
            ) {
                Some(c) => seq![Diagnostic { code: c, span }],
                None => Seq::empty(),
            },
    {
        let expected = if is_method {
            if param_count >= 1 {
                param_count - 1
            } else {
                0
            }
        } else {
            param_count
        };
        if is_variadic {
            self.report(arg_count < expected, DiagCode::ArgCountMismatchAtLeast, span);
        } else {
            self.report(arg_count != expected, DiagCode::ArgCountMismatch, span);
        }
        proof {
            let d = match arity_problem(arg_count as nat, param_count as nat, is_method, is_variadic) {
                Some(c) => seq![Diagnostic { code: c, span }],
                None => Seq::<Diagnostic>::empty(),
            };
            assert(self.ctx.diags@ =~= old(self).ctx.diags@ + d);
        }
    }

    /// Coerces the receiver of a method call, of type `receiver_ty`, to the
    /// receiver parameter `expected_self`; where that fails and a pointer was
    /// expected, reports that the receiver must be one.
    pub fn check_method_receiver(&mut self, expected_self: TypeId, receiver_ty: TypeId, expr: &Expr)
        requires
            old(self).wf(),
            old(self).tvars_valid(),
            old(self).ctx.types.valid(expected_self),
            old(self).ctx.types.valid(receiver_ty),
        ensures
            old(self).advances_to(*final(self)),
            old(self).trivially_coerces(expected_self, receiver_ty) ==> *final(self) == *old(self),
            old(self).var_in_range(expected_self) && old(self).var_in_range(receiver_ty) && !old(
                self,
            ).trivially_coerces(expected_self, receiver_ty) && !old(self).binds_var(expected_self, receiver_ty)
                && plain_target(old(self).kind_of(expected_self)) ==> final(self).ctx.diags@.last() == (Diagnostic {
                code: DiagCode::MismatchedTypes,
                span: expr.span,
            }),
    {
        let norm_expected = self.resolve_tv(expected_self);
        let is_ptr = match self.ctx.types.get(norm_expected) {
            TypeKind::Pointer { .. } | TypeKind::VolatilePtr { .. } => true,
            _ => false,
        };
        let ghost s0 = *self;
        if !self.coerce_arg(expr, expected_self, receiver_ty) {
            if is_ptr {
                let ghost s1 = *self;
                self.report(true, DiagCode::ReceiverNotPointer, expr.span);
                proof {
                    assert(s1.ctx.diags@.is_prefix_of(self.ctx.diags@)) by {
                        assert(s1.ctx.diags@ =~= self.ctx.diags@.subrange(0, s1.ctx.diags@.len() as int));
                    }
                    lemma_prefix_refl(self.ctx.types.kinds());
                    s0.lemma_advances_trans(s1, *self);
                }
            }
        }
    }

    /// Checks the arguments of a call against the parameters `params`, the
    /// first being the receiver of a method: each argument with a parameter is
    /// coerced to it; a trailing argument of a variadic callee must not be an
    /// integer narrower than 32 bits nor an `f32`. An argument's type is the
    /// one inference gave it, where it gave one.
    pub fn check_call_arguments(
        &mut self,
        args: &Vec<Expr>,
        params: &Vec<TypeId>,
        is_method: bool,
        is_variadic: bool,
        inferred_arg_tys: &Option<Vec<Option<TypeId>>>,
    )
        requires
            old(self).wf(),
            old(self).tvars_valid(),
            ids_below(params@, old(self).ctx.types.len() as int),
            forall|i: int| 0 <= i < args@.len() ==> old(self).ctx.types.valid(#[trigger] args@[i].ty),
            inferred_arg_tys matches Some(v) ==> forall|i: int|
                0 <= i < v@.len() ==> (#[trigger] v@[i] matches Some(t) ==> old(self).ctx.types.valid(t)),
        ensures
            old(self).advances_to(*final(self)),
            params@.len() <= (if is_method {
                1int
            } else {
                0int
            }) ==> old(self).same_but_diags(*final(self)) && final(self).ctx.diags@ == old(self).ctx.diags@ + old(
                self,
            ).vararg_diags(*inferred_arg_tys, args@, args@.len() as int),
            forall|k: int|
                #![trigger args@[k]]
                0 <= k < args@.len() && k + (if is_method {
                    1int
                } else {
                    0int
                }) < params@.len() && old(self).arg_mismatch(
                    params@[k + (if is_method {
                        1int
                    } else {
                        0int
                    })],
                    given_ty(*inferred_arg_tys, args@, k),
                ) ==> final(self).ctx.diags@.contains(Diagnostic { code: DiagCode::MismatchedTypes, span: args@[k].span }),
    {
        proof {
            old(self).lemma_advances_refl();
            lemma_prefix_refl(self.ctx.types.kinds());
            assert(old(self).ctx.diags@ + Seq::<Diagnostic>::empty() =~= old(self).ctx.diags@);
        }
        let off: usize = if is_method {
            1
        } else {
            0
        };
        let mut i: usize = 0;
        while i < args.len()
            invariant
                old(self).wf(),
                old(self).advances_to(*self),
                self.wf(),
                self.tvars_valid(),
                off <= 1,
                i <= args@.len(),
                ids_below(params@, old(self).ctx.types.len() as int),
                forall|i: int| 0 <= i < args@.len() ==> old(self).ctx.types.valid(#[trigger] args@[i].ty),
                inferred_arg_tys matches Some(v) ==> forall|i: int|
                    0 <= i < v@.len() ==> (#[trigger] v@[i] matches Some(t) ==> old(self).ctx.types.valid(t)),
                off == (if is_method {
                    1int
                } else {
                    0int
                }),
                params@.len() <= off ==> old(self).same_but_diags(*self) && self.ctx.diags@ == old(self).ctx.diags@
                    + old(self).vararg_diags(*inferred_arg_tys, args@, i as int),
                forall|k: int|
                    #![trigger args@[k]]
                    0 <= k < i && k + off < params@.len() && old(self).arg_mismatch(
                        params@[k + off],
                        given_ty(*inferred_arg_tys, args@, k),
                    ) ==> self.ctx.diags@.contains(Diagnostic { code: DiagCode::MismatchedTypes, span: args@[k].span }),
            decreases args@.len() - i,
        {
            let given = match inferred_arg_tys {
                Some(v) => if i < v.len() {
                    v[i]
                } else {
                    None
                },
                None => None,
            };
            let arg_ty = match given {
                Some(t) => t,
                None => args[i].ty,
            };
            proof {
                assert(old(self).ctx.types.valid(arg_ty));
                assert(self.ctx.types.valid(arg_ty));
            }
            let ghost s0 = *self;
            if i + off < params.len() {
                proof {
                    assert(self.ctx.types.valid(params@[i + off]));
                }
                let ok = self.coerce_arg(&args[i], params[i + off], arg_ty);
                proof {
                    old(self).lemma_advances_trans(s0, *self);
                    let d = Diagnostic { code: DiagCode::MismatchedTypes, span: args@[i as int].span };
                    assert(arg_ty == given_ty(*inferred_arg_tys, args@, i as int));
                    if old(self).arg_mismatch(params@[i + off], arg_ty) {
                        old(self).lemma_settled_stable(s0, params@[i + off]);
                        old(self).lemma_settled_stable(s0, arg_ty);
                        assert(!ok);
                        assert(self.ctx.diags@[self.ctx.diags@.len() - 1] == d);
                        assert(self.ctx.diags@.contains(d));
                    }
                    assert forall|k: int|
                        #![trigger args@[k]]
                        0 <= k < i && k + off < params@.len() && old(self).arg_mismatch(
                            params@[k + off],
                            given_ty(*inferred_arg_tys, args@, k),
                        ) implies self.ctx.diags@.contains(Diagnostic { code: DiagCode::MismatchedTypes, span: args@[k].span }) by {
                        lemma_prefix_contains(s0.ctx.diags@, self.ctx.diags@, Diagnostic { code: DiagCode::MismatchedTypes, span: args@[k].span });
                    }
                }
            } else {
                let norm = self.resolve_tv(arg_ty);
                let ghost d0 = self.ctx.diags@;
                proof {
                    assert(arg_ty == given_ty(*inferred_arg_tys, args@, i as int));
                }
                if norm != TY_ERROR {
                    let small = norm == TY_I8 || norm == TY_I16 || norm == TY_U8 || norm == TY_U16;
                    if small {
                        self.report(true, DiagCode::VarargIntTooSmall, args[i].span);
                    } else {
                        self.report(norm == TY_F32, DiagCode::VarargFloatTooSmall, args[i].span);
                    }
                    proof {
                        assert(s0.ctx.diags@.is_prefix_of(self.ctx.diags@)) by {
                            assert(s0.ctx.diags@ =~= self.ctx.diags@.subrange(0, s0.ctx.diags@.len() as int));
                        }
                        lemma_prefix_refl(self.ctx.types.kinds());
                        old(self).lemma_advances_trans(s0, *self);
                    }
                }
                proof {
                    if params@.len() <= off {
                        assert(self.ctx.diags@ == d0 + vararg_diag(norm, args@[i as int].span));
                        assert(old(self).ctx.diags@ + old(self).vararg_diags(*inferred_arg_tys, args@, i + 1) =~= old(
                            self,
                        ).ctx.diags@ + old(self).vararg_diags(*inferred_arg_tys, args@, i as int) + vararg_diag(
                            norm,
                            args@[i as int].span,
                        ));
                    }
                }
            }
            i = i + 1;
        }
    }
}

impl ExprChecker {
    /// `t` names a type that is no inference variable, so that what it
    /// resolves to does not depend on the bindings made meanwhile.
    pub open spec fn is_settled(self, t: TypeId) -> bool {
        self.ctx.types.valid(t) && !(self.ctx.types.kind(self.ctx.types.norm(t)) is TypeVar)
    }

    /// A value of the settled type `a` cannot stand where the settled type
    /// `e`, one no coercion leads to, is expected.
    pub open spec fn arg_mismatch(self, e: TypeId, a: TypeId) -> bool {
        &&& self.is_settled(e)
        &&& self.is_settled(a)
        &&& !self.trivially_coerces(e, a)
        &&& plain_target(self.kind_of(e))
    }

    pub proof fn lemma_settled_stable(self, after: Self, t: TypeId)
        requires
            self.wf(),
            self.advances_to(after),
            self.is_settled(t),
        ensures
            after.is_settled(t),
            after.resolved(t) == self.resolved(t),
            after.kind_of(t) == self.kind_of(t),
    {
        self.ctx.types.lemma_norm(t);
        lemma_norm_grow(self.ctx.types, after.ctx.types, t);
        lemma_prefix_kind(self.ctx.types, after.ctx.types, t);
        lemma_prefix_kind(self.ctx.types, after.ctx.types, self.ctx.types.norm(t));
    }
}

pub proof fn lemma_prefix_contains<T>(a: Seq<T>, b: Seq<T>, x: T)
    requires
        a.is_prefix_of(b),
        a.contains(x),
    ensures
        b.contains(x),
{
    let k = choose|k: int| 0 <= k < a.len() && a[k] == x;
    assert(b[k] == a[k]);
}

/// The type a call argument is checked at: the one inference gave it, where
/// it gave one, else its own.
pub open spec fn given_ty(inferred: Option<Vec<Option<TypeId>>>, args: Seq<Expr>, i: int) -> TypeId {
    match inferred {
        Some(v) => if i < v@.len() {
            match v@[i] {
                Some(t) => t,
                None => args[i].ty,
            }
        } else {
            args[i].ty
        },
        None => args[i].ty,
    }
}

/// What a trailing argument of (resolved) type `t` reports: an integer
/// narrower than 32 bits or an `f32`.
pub open spec fn vararg_diag(t: TypeId, span: Span) -> Seq<Diagnostic> {
    if t == TY_ERROR {
        Seq::empty()
    } else if t == TY_I8 || t == TY_I16 || t == TY_U8 || t == TY_U16 {
        seq![Diagnostic { code: DiagCode::VarargIntTooSmall, span }]
    } else if t == TY_F32 {
        seq![Diagnostic { code: DiagCode::VarargFloatTooSmall, span }]
    } else {
        Seq::empty()
    }
}

impl ExprChecker {
    /// What the first `n` of `args` report as trailing arguments.
    pub open spec fn vararg_diags(self, inferred: Option<Vec<Option<TypeId>>>, args: Seq<Expr>, n: int) -> Seq<
        Diagnostic,
    >
        decreases n,
    {
        if n <= 0 {
            Seq::empty()
        } else {
            self.vararg_diags(inferred, args, n - 1) + vararg_diag(
                self.resolved(given_ty(inferred, args, n - 1)),
                args[n - 1].span,
            )
        }
    }
}

/// The names the member intrinsics are written with.
pub struct MemberNames {
    pub len: SymbolId,
    pub ptr: SymbolId,
    pub start: SymbolId,
    pub end: SymbolId,
    pub data_ptr: SymbolId,
    pub vtable_ptr: SymbolId,
    pub state_ptr: SymbolId,
    pub entry_ptr: SymbolId,
}

/// The member intrinsic the name `field` denotes, if any.
pub open spec fn member_of(names: MemberNames, field: SymbolId) -> Option<MemberIntrinsic> {
    if field == names.len {
        Some(MemberIntrinsic::Len)
    } else if field == names.ptr {
        Some(MemberIntrinsic::Ptr)
    } else if field == names.start {
        Some(MemberIntrinsic::Start)
    } else if field == names.end {
        Some(MemberIntrinsic::End)
    } else if field == names.data_ptr {
        Some(MemberIntrinsic::DataPtr)
    } else if field == names.vtable_ptr {
        Some(MemberIntrinsic::VtablePtr)
    } else if field == names.state_ptr {
        Some(MemberIntrinsic::StatePtr)
    } else if field == names.entry_ptr {
        Some(MemberIntrinsic::EntryPtr)
    } else {
        None
    }
}

pub fn member_named(names: &MemberNames, field: SymbolId) -> (r: Option<MemberIntrinsic>)
    ensures
        r == member_of(*names, field),
{
    if field == names.len {
        Some(MemberIntrinsic::Len)
    } else if field == names.ptr {
        Some(MemberIntrinsic::Ptr)
    } else if field == names.start {
        Some(MemberIntrinsic::Start)
    } else if field == names.end {
        Some(MemberIntrinsic::End)
    } else if field == names.data_ptr {
        Some(MemberIntrinsic::DataPtr)
    } else if field == names.vtable_ptr {
        Some(MemberIntrinsic::VtablePtr)
    } else if field == names.state_ptr {
        Some(MemberIntrinsic::StatePtr)
    } else if field == names.entry_ptr {
        Some(MemberIntrinsic::EntryPtr)
    } else {
        None
    }
}

impl ExprChecker {
    /// What the member intrinsic `m` called with `n` arguments on a receiver
    /// of type `recv` gives: an error for arguments, the type of the member
    /// where it applies to the receiver, `None` where it does not.
    pub open spec fn member_result(
        self,
        after: Self,
        recv: TypeId,
        m: MemberIntrinsic,
        n: int,
        span: Span,
        r: Option<TypeId>,
    ) -> bool {
        &&& self.grows_reporting(after)
        &&& n != 0 ==> r == Some(TY_ERROR) && self.reported(after, DiagCode::MemberIntrinsicArgs, span)
        &&& n == 0 ==> match self.member_outcome(recv, m) {
            MemberOutcome::NotMember => r is None && after == self,
            MemberOutcome::Type(t) => r == Some(t) && after == self,
            MemberOutcome::Pointer(is_mut, elem) => r is Some && after.ctx.diags == self.ctx.diags && (after.ctx.types.len()
                < u32::MAX ==> after.is_pointer_result(r, is_mut, elem)),
            MemberOutcome::Refused(c) => r == Some(TY_ERROR) && self.reported(after, c, span),
        }
    }

    /// The call `lhs.field(..)` with `n` arguments is decided before the
    /// callee's signature: its receiver has the error type, or `field` names
    /// a member intrinsic that applies to the receiver (or is given
    /// arguments).
    pub open spec fn member_dispatch(self, callee: Expr, members: MemberNames, n: int) -> bool {
        match callee.kind {
            ExprKind::FieldAccess { lhs, field } => self.resolved(lhs.ty) == TY_ERROR || (member_of(members, field) matches Some(
                m,
            ) && (n != 0 || !(self.member_outcome(lhs.ty, m) is NotMember))),
            _ => false,
        }
    }

    /// The type of a call decided by `member_dispatch`.
    pub open spec fn member_call(self, after: Self, callee: Expr, members: MemberNames, n: int, r: TypeId) -> bool {
        match callee.kind {
            ExprKind::FieldAccess { lhs, field } => if self.resolved(lhs.ty) == TY_ERROR {
                r == TY_ERROR && after == self
            } else {
                match member_of(members, field) {
                    Some(m) => self.member_result(after, lhs.ty, m, n, callee.span, Some(r)),
                    None => true,
                }
            },
            _ => true,
        }
    }
}

impl ExprChecker {
    /// What deducing the signature of the callee `norm_callee` gives, as
    /// `deduce_and_resolve_signature` states it.
    pub open spec fn deduce_ok(
        self,
        after: Self,
        norm_callee: TypeId,
        args: Seq<Expr>,
        is_method: bool,
        receiver_ty: TypeId,
        span: Span,
        user_explicit: bool,
        d: (TypeId, Option<TypeId>, Option<Vec<Option<TypeId>>>),
    ) -> bool {
        &&& self.grows_reporting(after)
        &&& after.tvars_valid()
        &&& !(self.ctx.types.kind(norm_callee) is FnDef) ==> d.0 == norm_callee && d.1 is None && d.2 is None
            && after.ctx.diags == self.ctx.diags
        &&& match self.ctx.types.kind(norm_callee) {
            TypeKind::FnDef(def_id, explicit) => self.deduced(
                after,
                def_id,
                explicit@,
                args,
                is_method,
                receiver_ty,
                span,
                user_explicit,
                d,
            ),
            _ => true,
        }
    }

    /// The type a call gives once the callee's signature `sig` is known: the
    /// return type of a function type or of a pointer to a closure
    /// interface, unless the callee `target` is an atomic or SIMD intrinsic;
    /// the error type, with a diagnostic at `span`, for what is not callable.
    pub open spec fn call_returns(self, after: Self, sig: TypeId, target: TypeId, span: Span, r: TypeId) -> bool {
        &&& !(self.ctx.types.valid(sig) && callable_ret(self.ctx.types, self.ctx.types.kind(sig)) is Some) ==> r
            == TY_ERROR && after.ctx.diags@.last() == (Diagnostic { code: DiagCode::NotCallable, span })
        &&& self.ctx.types.valid(sig) && !self.dispatches_intrinsic(target) ==> (callable_ret(
            self.ctx.types,
            self.ctx.types.kind(sig),
        ) matches Some(rt) ==> r == rt)
    }

    /// The type of a call of `callee` with `args` (other than `@asm`): the
    /// return type of the signature that deduction gives the callee.
    pub open spec fn call_typed(self, after: Self, callee: Expr, args: Seq<Expr>, r: TypeId) -> bool {
        let norm = self.resolved(callee.ty);
        let mc = self.method_context(callee);
        exists|mid: ExprChecker, d: (TypeId, Option<TypeId>, Option<Vec<Option<TypeId>>>)|
            #[trigger] self.deduce_ok(
                mid,
                norm,
                args,
                mc.0,
                mc.1,
                callee.span,
                callee.kind is GenericInstantiation,
                d,
            ) && mid.call_returns(
                after,
                d.0,
                match d.1 {
                    Some(x) => x,
                    None => norm,
                },
                callee.span,
                r,
            )
    }
}

impl ExprChecker {
    /// Whether a call whose callee expression is `callee` is a method call,
    /// and the receiver's type: the callee is a field access on a value, not
    /// a module, whose type is a function.
    pub open spec fn method_context(self, callee: Expr) -> (bool, TypeId) {
        match callee.kind {
            ExprKind::FieldAccess { lhs, .. } => {
                let types = self.ctx.types;
                if types.valid(lhs.ty) && types.valid(callee.ty) && !(types.kind(types.norm(lhs.ty)) is Module)
                    && (types.kind(types.norm(callee.ty)) is FnDef || types.kind(types.norm(callee.ty)) is Function) {
                    (true, lhs.ty)
                } else {
                    (false, TY_ERROR)
                }
            },
            _ => (false, TY_ERROR),
        }
    }

    pub fn resolve_method_context(&self, callee: &Expr) -> (r: (bool, TypeId))
        requires
            self.wf(),
        ensures
            r == self.method_context(*callee),
    {
        if let ExprKind::FieldAccess { lhs, .. } = &callee.kind {
            let n = self.ctx.types.num_types();
            if (lhs.ty as usize) < n && (callee.ty as usize) < n {
                let norm_lhs = self.ctx.types.normalize(lhs.ty);
                if let TypeKind::Module(_) = self.ctx.types.get(norm_lhs) {
                    return (false, TY_ERROR);
                }
                let norm_node = self.ctx.types.normalize(callee.ty);
                match self.ctx.types.get(norm_node) {
                    TypeKind::FnDef(..) | TypeKind::Function { .. } => {
                        return (true, lhs.ty);
                    },
                    _ => {},
                }
            }
        }
        (false, TY_ERROR)
    }

    /// The intrinsic the function definition `d` is, if any.
    pub open spec fn def_intrinsic(self, d: DefId) -> Option<Intrinsic> {
        if d < self.ctx.defs@.len() {
            match self.ctx.defs@[d as int] {
                Def::Function(fd) => fd.intrinsic,
                _ => None,
            }
        } else {
            None
        }
    }

    /// The callee type `t` names an atomic or SIMD intrinsic, which is
    /// checked on its own.
    pub open spec fn dispatches_intrinsic(self, t: TypeId) -> bool {
        match self.ctx.types.kind(self.ctx.types.norm(crate::eval_spec::known_ty(self.ctx.types, t))) {
            TypeKind::FnDef(d, _) => self.def_intrinsic(d) matches Some(Intrinsic::Atomic(_)) || self.def_intrinsic(d) matches Some(
                Intrinsic::Simd(_),
            ),
            _ => false,
        }
    }

    fn intrinsic_of(&self, d: DefId) -> (r: Option<Intrinsic>)
        ensures
            r == self.def_intrinsic(d),
    {
        if (d as usize) < self.ctx.defs.len() {
            match &self.ctx.defs[d as usize] {
                Def::Function(fd) => fd.intrinsic,
                _ => None,
            }
        } else {
            None
        }
    }

    /// The signature a call of `callee_ty` is checked against where it needs
    /// no inference: a function type itself, or the declared signature of a
    /// non-generic function definition that is no checked intrinsic.
    pub open spec fn plain_sig(self, callee_ty: TypeId) -> Option<TypeId> {
        let n = self.resolved(callee_ty);
        match self.ctx.types.kind(n) {
            TypeKind::FnDef(d, _) => if d < self.ctx.defs@.len() {
                match self.ctx.defs@[d as int] {
                    Def::Function(fd) => if fd.generics@.len() == 0 && !(fd.intrinsic matches Some(
                        Intrinsic::Atomic(_),
                    )) && !(fd.intrinsic matches Some(Intrinsic::Simd(_))) {
                        fd.sig
                    } else {
                        None
                    },
                    _ => None,
                }
            } else {
                None
            },
            _ => Some(n),
        }
    }

    /// Checks the call of `callee` with `args` and gives its type: the
    /// `@asm` intrinsic is checked on its own; a member intrinsic such as
    /// `.@len()` is typed from its receiver; otherwise the callee's signature
    /// is deduced, the argument count and the receiver are checked, an atomic
    /// or SIMD intrinsic gets its own checks (a SIMD one its own result type),
    /// and the arguments of all but atomic intrinsics are coerced to their
    /// parameters. A callee that is not callable is reported.
    #[verifier::rlimit(30)]
    pub fn check_call(
        &mut self,
        callee: &Expr,
        args: &Vec<Expr>,
        span: Span,
        names: &AsmFieldNames,
        members: &MemberNames,
    ) -> (r: TypeId)
        requires
            old(self).wf(),
            old(self).tvars_valid(),
            old(self).ctx.types.valid(callee.ty),
            forall|i: int| 0 <= i < args@.len() ==> old(self).ctx.types.valid(#[trigger] args@[i].ty),
            callee.kind matches ExprKind::FieldAccess { lhs, .. } ==> old(self).ctx.types.valid(lhs.ty),
        ensures
            old(self).advances_to(*final(self)),
            callee.kind matches ExprKind::Identifier(s) && s == names.asm_intrinsic ==> r == (if args@.len() == 1
                && untyped_struct(args@[0]) {
                crate::types::TY_VOID
            } else {
                TY_ERROR
            }),
            !(callee.kind matches ExprKind::Identifier(s) && s == names.asm_intrinsic) && old(self).member_dispatch(
                *callee,
                *members,
                args@.len() as int,
            ) ==> old(self).member_call(*final(self), *callee, *members, args@.len() as int, r),
            !(callee.kind matches ExprKind::Identifier(s) && s == names.asm_intrinsic) && !old(self).member_dispatch(*callee, *members, args@.len() as int) && old(self).resolved(
                callee.ty,
            ) == TY_ERROR ==> r == TY_ERROR && *final(self) == *old(self),
            !(callee.kind matches ExprKind::Identifier(s) && s == names.asm_intrinsic) && !old(self).member_dispatch(*callee, *members, args@.len() as int) && old(self).resolved(
                callee.ty,
            ) != TY_ERROR ==> old(self).call_typed(*final(self), *callee, args@, r),
            !(callee.kind matches ExprKind::Identifier(s) && s == names.asm_intrinsic) && !old(self).member_dispatch(*callee, *members, args@.len() as int) && old(self).resolved(
                callee.ty,
            ) != TY_ERROR ==> (old(self).plain_sig(callee.ty) matches Some(sig) ==> (old(self).ctx.types.valid(sig)
                ==> r == match callable_ret(old(self).ctx.types, old(self).ctx.types.kind(sig)) {
                Some(rt) => rt,
                None => TY_ERROR,
            })),
    {
        proof {
            old(self).lemma_advances_refl();
        }
        if let ExprKind::Identifier(s) = &callee.kind {
            if *s == names.asm_intrinsic {
                let r = self.check_asm_call(args, span, names);
                proof {
                    lemma_prefix_refl(self.ctx.types.kinds());
                }
                return r;
            }
        }
        if let ExprKind::FieldAccess { lhs, field } = &callee.kind {
            let recv = self.resolve_tv(lhs.ty);
            if recv == TY_ERROR {
                return TY_ERROR;
            }
            if let Some(m) = member_named(members, *field) {
                if let Some(t) = self.member_intrinsic_call_result(lhs.ty, m, args.len(), callee.span) {
                    proof {
                        old(self).lemma_grows_reporting(*self, 0);
                        old(self).lemma_advances_from(*self);
                    }
                    return t;
                }
            }
        }
        let norm_callee = self.resolve_tv(callee.ty);
        if norm_callee == TY_ERROR {
            return TY_ERROR;
        }
        let (is_method, receiver_ty) = self.resolve_method_context(callee);
        let has_user_explicit_generics = match &callee.kind {
            ExprKind::GenericInstantiation { .. } => true,
            _ => false,
        };
        let ghost s0 = *self;
        let (sig_ty, inferred_callee_ty, inferred_arg_tys) = self.deduce_and_resolve_signature(
            norm_callee,
            args,
            is_method,
            receiver_ty,
            callee.span,
            has_user_explicit_generics,
        );
        let ghost s1 = *self;
        proof {
            s0.lemma_grows_reporting(s1, 0);
            s0.lemma_advances_from(s1);
            old(self).lemma_advances_trans(s0, s1);
            lemma_deduced_arg_tys(s0, s1, norm_callee, args@, is_method, receiver_ty, callee.span, has_user_explicit_generics, (sig_ty, inferred_callee_ty, inferred_arg_tys));
        }
        let r = self.check_call_with_signature(
            callee,
            args,
            span,
            norm_callee,
            is_method,
            receiver_ty,
            sig_ty,
            inferred_callee_ty,
            inferred_arg_tys,
        );
        proof {
            old(self).lemma_advances_trans(s1, *self);
            assert(old(self).deduce_ok(
                s1,
                norm_callee,
                args@,
                is_method,
                receiver_ty,
                callee.span,
                has_user_explicit_generics,
                (sig_ty, inferred_callee_ty, inferred_arg_tys),
            ));
            assert(s1.call_returns(
                *self,
                sig_ty,
                match inferred_callee_ty {
                    Some(x) => x,
                    None => norm_callee,
                },
                callee.span,
                r,
            ));
            if let Some(sig) = s0.plain_sig(callee.ty) {
                if s0.ctx.types.valid(sig) {
                    assert(sig_ty == sig);
                    assert(inferred_callee_ty is None);
                    lemma_prefix_kind(s0.ctx.types, s1.ctx.types, norm_callee);
                    assert(crate::eval_spec::known_ty(s1.ctx.types, norm_callee) == norm_callee);
                    assert(s1.ctx.types.norm(norm_callee) == norm_callee);
                    assert(!s1.dispatches_intrinsic(norm_callee));
                    lemma_prefix_kind(s0.ctx.types, s1.ctx.types, sig);
                    if let TypeKind::Pointer { elem, .. } = s0.ctx.types.kind(sig) {
                        assert(children_below(s0.ctx.types.kinds()[sig as int], sig as int));
                        lemma_norm_grow(s0.ctx.types, s1.ctx.types, elem);
                        s0.ctx.types.lemma_norm(elem);
                        lemma_prefix_kind(s0.ctx.types, s1.ctx.types, s0.ctx.types.norm(elem));
                    }
                    if let TypeKind::VolatilePtr { elem, .. } = s0.ctx.types.kind(sig) {
                        assert(children_below(s0.ctx.types.kinds()[sig as int], sig as int));
                        lemma_norm_grow(s0.ctx.types, s1.ctx.types, elem);
                        s0.ctx.types.lemma_norm(elem);
                        lemma_prefix_kind(s0.ctx.types, s1.ctx.types, s0.ctx.types.norm(elem));
                    }
                    assert(callable_ret(s1.ctx.types, s1.ctx.types.kind(sig)) == callable_ret(
                        s0.ctx.types,
                        s0.ctx.types.kind(sig),
                    ));
                }
            }
        }
        r
    }


    /// The dispatch of `check_call` once the signature `sig_ty` of the
    /// callee is known.
    #[verifier::rlimit(30)]
    fn check_call_with_signature(
        &mut self,
        callee: &Expr,
        args: &Vec<Expr>,
        span: Span,
        norm_callee: TypeId,
        is_method: bool,
        receiver_ty: TypeId,
        sig_ty: TypeId,
        inferred_callee_ty: Option<TypeId>,
        inferred_arg_tys: Option<Vec<Option<TypeId>>>,
    ) -> (r: TypeId)
        requires
            old(self).wf(),
            old(self).tvars_valid(),
            old(self).ctx.types.valid(receiver_ty),
            forall|i: int| 0 <= i < args@.len() ==> old(self).ctx.types.valid(#[trigger] args@[i].ty),
            inferred_arg_tys matches Some(v) ==> forall|i: int|
                0 <= i < v@.len() ==> (#[trigger] v@[i] matches Some(t) ==> i < args@.len() && t == args@[i].ty),
        ensures
            old(self).advances_to(*final(self)),
            !(old(self).ctx.types.valid(sig_ty) && callable_ret(old(self).ctx.types, old(self).ctx.types.kind(sig_ty)) is Some)
                ==> r == TY_ERROR && final(self).ctx.diags@.last() == (Diagnostic { code: DiagCode::NotCallable, span: callee.span }),
            old(self).ctx.types.valid(sig_ty) && !old(self).dispatches_intrinsic(match inferred_callee_ty {
                Some(x) => x,
                None => norm_callee,
            }) ==> (callable_ret(old(self).ctx.types, old(self).ctx.types.kind(sig_ty)) matches Some(rt) ==> r == rt),
    {
        proof {
            old(self).lemma_advances_refl();
        }
        let target = match inferred_callee_ty {
            Some(x) => x,
            None => norm_callee,
        };
        let intr = match self.intrinsic_def_from_callee_ty(target) {
            Some(d) => self.intrinsic_of(d),
            None => None,
        };
        if (sig_ty as usize) >= self.ctx.types.num_types() {
            self.report(true, DiagCode::NotCallable, callee.span);
            proof {
                self.lemma_report_advances(*old(self));
                old(self).lemma_advances_refl();
            }
            return TY_ERROR;
        }
        proof {
            assert(children_below(self.ctx.types.kinds()[sig_ty as int], sig_ty as int));
        }
        let shape = match self.ctx.types.get(sig_ty) {
            TypeKind::Function { params, ret, is_variadic } => Some((crate::subst::copy_ids(params), *ret, *is_variadic)),
            TypeKind::Pointer { elem, .. } | TypeKind::VolatilePtr { elem, .. } => {
                let inner = self.ctx.types.normalize(*elem);
                proof {
                    assert(children_below(self.ctx.types.kinds()[inner as int], inner as int));
                }
                match self.ctx.types.get(inner) {
                    TypeKind::ClosureInterface { params, ret } => Some((crate::subst::copy_ids(params), *ret, false)),
                    _ => None,
                }
            },
            _ => None,
        };
        let (params, ret, is_variadic) = match shape {
            Some(x) => x,
            None => {
                self.report(true, DiagCode::NotCallable, callee.span);
                proof {
                    self.lemma_report_advances(*old(self));
                    old(self).lemma_advances_refl();
                }
                return TY_ERROR;
            },
        };
        let ghost s2 = *self;
        self.check_call_arity(args.len(), params.len(), is_method, is_variadic, span);
        proof {
            self.lemma_report_advances(s2);
            old(self).lemma_advances_trans(s2, *self);
        }
        if is_method && params.len() > 0 {
            let ghost s3 = *self;
            proof {
                assert(self.ctx.types.valid(receiver_ty));
            }
            self.check_method_receiver(params[0], receiver_ty, callee);
            proof {
                old(self).lemma_advances_trans(s3, *self);
            }
        }
        let mut final_ret = ret;
        let mut handled = false;
        let ghost s4 = *self;
        match intr {
            Some(Intrinsic::Atomic(i)) => {
                if args.len() >= i.num_args() {
                    self.check_atomic_intrinsic_call(i, target, args);
                    handled = true;
                }
            },
            Some(Intrinsic::Simd(i)) => {
                if args.len() >= i.num_args() {
                    if let Some(t) = self.check_simd_intrinsic_call(i, target, args, ret) {
                        final_ret = t;
                    }
                }
            },
            _ => {},
        }
        proof {
            self.lemma_report_advances(s4);
            old(self).lemma_advances_trans(s4, *self);
        }
        if !handled {
            let ghost s5 = *self;
            proof {
                assert forall|i: int| 0 <= i < args@.len() implies self.ctx.types.valid(#[trigger] args@[i].ty) by {
                    assert(old(self).ctx.types.valid(args@[i].ty));
                }
            }
            self.check_call_arguments(args, &params, is_method, is_variadic, &inferred_arg_tys);
            proof {
                old(self).lemma_advances_trans(s5, *self);
            }
        }
        proof {
            old(self).lemma_advances_refl();
        }
        final_ret
    }

    /// Adding diagnostics, and nothing else, advances the checker.
    pub proof fn lemma_report_advances(self, before: Self)
        requires
            before.wf(),
            before.tvars_valid(),
            before.same_but_diags(self),
            before.ctx.diags@.is_prefix_of(self.ctx.diags@),
        ensures
            before.advances_to(self),
    {
        lemma_prefix_refl(before.ctx.types.kinds());
    }
}

/// The argument types a deduction hands back are those of the arguments.
proof fn lemma_deduced_arg_tys(
    s: ExprChecker,
    after: ExprChecker,
    norm_callee: TypeId,
    args: Seq<Expr>,
    is_method: bool,
    receiver_ty: TypeId,
    span: Span,
    user_explicit: bool,
    r: (TypeId, Option<TypeId>, Option<Vec<Option<TypeId>>>),
)
    requires
        !(s.ctx.types.kind(norm_callee) is FnDef) ==> r.2 is None,
        s.ctx.types.kind(norm_callee) matches TypeKind::FnDef(def_id, explicit) ==> s.deduced(
            after,
            def_id,
            explicit@,
            args,
            is_method,
            receiver_ty,
            span,
            user_explicit,
            r,
        ),
    ensures
        r.2 matches Some(v) ==> forall|i: int|
            0 <= i < v@.len() ==> (#[trigger] v@[i] matches Some(t) ==> i < args.len() && t == args[i].ty),
{
}

/// The member intrinsics called on a value: `.@len()`, `.@ptr()`,
/// `.@start()`, `.@end()`, `.@dataPtr()`, `.@vtablePtr()`, `.@statePtr()`
/// and `.@entryPtr()`.
#[derive(Clone, Copy, Debug, PartialEq, Eq, Structural)]
pub enum MemberIntrinsic {
    Len,
    Ptr,
    Start,
    End,
    DataPtr,
    VtablePtr,
    StatePtr,
    EntryPtr,
}

/// What a member intrinsic on a receiver gives: nothing (it does not apply),
/// a type, a pointer of the given mutability to the given type, or a
/// refusal.
pub enum MemberOutcome {
    NotMember,
    Type(TypeId),
    Pointer(bool, TypeId),
    Refused(DiagCode),
}

impl ExprChecker {
    /// The outcome of the member intrinsic `m` on a receiver of type
    /// `receiver_ty`.
    pub open spec fn member_outcome(self, receiver_ty: TypeId, m: MemberIntrinsic) -> MemberOutcome {
        match self.kind_of(receiver_ty) {
            TypeKind::Array { elem, .. } => match m {
                MemberIntrinsic::Len => MemberOutcome::Type(crate::types::TY_USIZE),
                MemberIntrinsic::Ptr => MemberOutcome::Pointer(false, elem),
                _ => MemberOutcome::NotMember,
            },
            TypeKind::ArrayInfer { elem, .. } => match m {
                MemberIntrinsic::Ptr => MemberOutcome::Pointer(false, elem),
                MemberIntrinsic::Len => MemberOutcome::Refused(DiagCode::LenOfInferredArray),
                _ => MemberOutcome::NotMember,
            },
            TypeKind::Slice { is_mut, elem } => match m {
                MemberIntrinsic::Len => MemberOutcome::Type(crate::types::TY_USIZE),
                MemberIntrinsic::Ptr => MemberOutcome::Pointer(is_mut, elem),
                _ => MemberOutcome::NotMember,
            },
            TypeKind::Pointer { is_mut, elem } | TypeKind::VolatilePtr { is_mut, elem } => match self.kind_of(elem) {
                TypeKind::TraitObject(..) => match m {
                    MemberIntrinsic::DataPtr => MemberOutcome::Pointer(is_mut, crate::types::TY_VOID),
                    MemberIntrinsic::VtablePtr => MemberOutcome::Pointer(false, crate::types::TY_VOID),
                    _ => MemberOutcome::NotMember,
                },
                TypeKind::ClosureInterface { .. } => match m {
                    MemberIntrinsic::StatePtr => MemberOutcome::Pointer(is_mut, crate::types::TY_VOID),
                    MemberIntrinsic::EntryPtr => MemberOutcome::Pointer(false, crate::types::TY_VOID),
                    _ => MemberOutcome::NotMember,
                },
                _ => MemberOutcome::NotMember,
            },
            _ => MemberOutcome::NotMember,
        }
    }

    /// `r` names a pointer type with the given mutability and element.
    pub open spec fn is_pointer_result(self, r: Option<TypeId>, is_mut: bool, elem: TypeId) -> bool {
        &&& r is Some
        &&& self.ctx.types.valid(r->0)
        &&& self.ctx.types.kind(r->0) == (TypeKind::Pointer { is_mut, elem })
    }

    /// The type of the member intrinsic `m` called with `arg_count`
    /// arguments on a receiver of type `receiver_ty`; `None` where it does
    /// not apply to the receiver. Arguments, and `.@len()` of an array of
    /// inferred length, are reported at `span`.
    pub fn member_intrinsic_call_result(
        &mut self,
        receiver_ty: TypeId,
        m: MemberIntrinsic,
        arg_count: usize,
        span: Span,
    ) -> (r: Option<TypeId>)
        requires
            old(self).wf(),
        ensures
            old(self).grows_reporting(*final(self)),
            old(self).member_result(*final(self), receiver_ty, m, arg_count as int, span, r),
    {
        proof {
            lemma_prefix_refl(self.ctx.types.kinds());
            lemma_prefix_refl(self.ctx.diags@);
        }
        if arg_count != 0 {
            self.report_call(DiagCode::MemberIntrinsicArgs, span);
            return Some(TY_ERROR);
        }
        let recv = self.resolve_tv(receiver_ty);
        proof {
            assert(children_below(self.ctx.types.kinds()[recv as int], recv as int));
        }
        let target: Option<(bool, TypeId)> = match self.ctx.types.get(recv) {
            TypeKind::Array { elem, .. } => match m {
                MemberIntrinsic::Len => {
                    return Some(crate::types::TY_USIZE);
                },
                MemberIntrinsic::Ptr => Some((false, *elem)),
                _ => {
                    return None;
                },
            },
            TypeKind::ArrayInfer { elem, .. } => match m {
                MemberIntrinsic::Ptr => Some((false, *elem)),
                MemberIntrinsic::Len => {
                    self.report_call(DiagCode::LenOfInferredArray, span);
                    return Some(TY_ERROR);
                },
                _ => {
                    return None;
                },
            },
            TypeKind::Slice { is_mut, elem } => match m {
                MemberIntrinsic::Len => {
                    return Some(crate::types::TY_USIZE);
                },
                MemberIntrinsic::Ptr => Some((*is_mut, *elem)),
                _ => {
                    return None;
                },
            },
            TypeKind::Pointer { is_mut, elem } | TypeKind::VolatilePtr { is_mut, elem } => {
                let is_mut = *is_mut;
                let e = self.resolve_tv(*elem);
                match self.ctx.types.get(e) {
                    TypeKind::TraitObject(..) => match m {
                        MemberIntrinsic::DataPtr => Some((is_mut, crate::types::TY_VOID)),
                        MemberIntrinsic::VtablePtr => Some((false, crate::types::TY_VOID)),
                        _ => {
                            return None;
                        },
                    },
                    TypeKind::ClosureInterface { .. } => match m {
                        MemberIntrinsic::StatePtr => Some((is_mut, crate::types::TY_VOID)),
                        MemberIntrinsic::EntryPtr => Some((false, crate::types::TY_VOID)),
                        _ => {
                            return None;
                        },
                    },
                    _ => {
                        return None;
                    },
                }
            },
            _ => {
                return None;
            },
        };
        match target {
            Some((is_mut, elem)) => {
                let r = self.intern_ty(TypeKind::Pointer { is_mut, elem });
                proof {
                    old(self).lemma_reporting_from(*self);
                }
                match r {
                    Some(p) => Some(p),
                    None => Some(TY_ERROR),
                }
            },
            None => None,
        }
    }

    fn report_call(&mut self, code: DiagCode, span: Span)
        requires
            old(self).wf(),
        ensures
            old(self).reported(*final(self), code, span),
            old(self).same_but_diags(*final(self)),
            old(self).grows_reporting(*final(self)),
    {
        self.report(true, code, span);
        proof {
            assert(old(self).ctx.diags@ + crate::checker::diag_if(true, Diagnostic { code, span }) =~= old(
                self,
            ).ctx.diags@.push(Diagnostic { code, span }));
            assert(old(self).ctx.diags@ =~= self.ctx.diags@.subrange(0, old(self).ctx.diags@.len() as int));
            old(self).lemma_reporting_from(*self);
        }
    }

    /// What the instantiation of the generic target of kind `target` with
    /// `types` gives: an error for a definition without generic parameters or
    /// with another number of them, else the instantiated type (while the
    /// type table has room).
    pub open spec fn instantiation_ok(
        self,
        after: Self,
        target: TypeKind,
        types: Seq<TypeId>,
        r: TypeId,
        span: Span,
    ) -> bool {
        let d = generic_target(target)->0;
        match def_generics(self.ctx, d) {
            None => r == TY_ERROR && self.reported(after, DiagCode::NotGenericDef, span),
            Some(g) => if g.len() != types.len() {
                r == TY_ERROR && self.reported(after, DiagCode::WrongGenericArgCount, span)
            } else {
                after.ctx.types.len() < u32::MAX ==> after.ctx.types.valid(r) && same_def_kind(
                    target,
                    after.ctx.types.kind(r),
                    d,
                    types,
                )
            },
        }
    }

    /// The type of the instantiation `target[types]`: the function
    /// definition, enum, trait object or other definition `target` names,
    /// with the generic arguments `types`, once the definition's `where`
    /// bounds are checked on them. A target that takes no generic arguments,
    /// a wrong number of them, and a missing current scope are reported.
    pub fn check_generic_instantiation(&mut self, target: &Expr, types: &Vec<TypeId>, span: Span) -> (r: TypeId)
        requires
            old(self).wf(),
            old(self).tvars_valid(),
            ids_below(types@, old(self).ctx.types.len() as int),
        ensures
            old(self).grows_reporting(*final(self)),
            final(self).tvars_valid(),
            old(self).resolved(target.ty) == TY_ERROR ==> r == TY_ERROR && *final(self) == *old(self),
            old(self).resolved(target.ty) != TY_ERROR && old(self).ctx.current_scope is None ==> r == TY_ERROR
                && old(self).reported(*final(self), DiagCode::MissingScope, span),
            old(self).resolved(target.ty) != TY_ERROR && old(self).ctx.current_scope is Some && generic_target(
                old(self).kind_of(target.ty),
            ) is None ==> r == TY_ERROR && old(self).reported(*final(self), DiagCode::NotGenericTarget, span),
            old(self).resolved(target.ty) != TY_ERROR && old(self).ctx.current_scope is Some && generic_target(
                old(self).kind_of(target.ty),
            ) is Some ==> old(self).instantiation_ok(*final(self), old(self).kind_of(target.ty), types@, r, span),
    {
        proof {
            lemma_prefix_refl(self.ctx.types.kinds());
            lemma_prefix_refl(self.ctx.diags@);
        }
        let target_norm = self.resolve_tv(target.ty);
        if target_norm == TY_ERROR {
            return TY_ERROR;
        }
        if self.ctx.current_scope.is_none() {
            self.report_call(DiagCode::MissingScope, span);
            return TY_ERROR;
        }
        let (d, which) = match self.ctx.types.get(target_norm) {
            TypeKind::FnDef(d, _) => (*d, 0u8),
            TypeKind::Enum(d, _) => (*d, 1u8),
            TypeKind::TraitObject(d, _) => (*d, 2u8),
            TypeKind::Def(d, _) => (*d, 3u8),
            _ => {
                self.report_call(DiagCode::NotGenericTarget, span);
                return TY_ERROR;
            },
        };
        let generics = if (d as usize) < self.ctx.defs.len() {
            match &self.ctx.defs[d as usize] {
                Def::Function(f) => Some(crate::subst::copy_ids(&f.generics)),
                Def::Enum { generics, .. } => Some(crate::subst::copy_ids(generics)),
                Def::Trait { generics, .. } => Some(crate::subst::copy_ids(generics)),
                _ => None,
            }
        } else {
            None
        };
        let generics = match generics {
            Some(g) => g,
            None => {
                self.report_call(DiagCode::NotGenericDef, span);
                return TY_ERROR;
            },
        };
        if generics.len() != types.len() {
            self.report_call(DiagCode::WrongGenericArgCount, span);
            return TY_ERROR;
        }
        let ghost s0 = *self;
        self.check_generic_bounds(span, d, &generics, types);
        let ghost s1 = *self;
        proof {
            s0.lemma_grows_reporting(s1, 0);
        }
        let args = crate::subst::copy_ids(types);
        let k = if which == 0 {
            TypeKind::FnDef(d, args)
        } else if which == 1 {
            TypeKind::Enum(d, args)
        } else if which == 2 {
            TypeKind::TraitObject(d, args)
        } else {
            TypeKind::Def(d, args)
        };
        let r = match self.intern_ty(k) {
            Some(x) => x,
            None => TY_ERROR,
        };
        proof {
            s1.lemma_reporting_from(*self);
            old(self).lemma_reporting_trans(s1, *self);
            s1.lemma_grows(*self, 0);
        }
        r
    }
}

/// The definition a type that takes generic arguments names.
pub open spec fn generic_target(k: TypeKind) -> Option<DefId> {
    match k {
        TypeKind::FnDef(d, _) | TypeKind::Enum(d, _) | TypeKind::TraitObject(d, _) | TypeKind::Def(d, _) => Some(d),
        _ => None,
    }
}

/// The generic parameters of the definition `d`, where it is one that has
/// them.
pub open spec fn def_generics(ctx: crate::context::SemaContext, d: DefId) -> Option<Seq<SymbolId>> {
    if d < ctx.defs@.len() {
        match ctx.defs@[d as int] {
            Def::Function(f) => Some(f.generics@),
            Def::Enum { generics, .. } => Some(generics@),
            Def::Trait { generics, .. } => Some(generics@),
            _ => None,
        }
    } else {
        None
    }
}

/// `k` is the type of the same sort as `target` naming `d` with the
/// arguments `args`.
pub open spec fn same_def_kind(target: TypeKind, k: TypeKind, d: DefId, args: Seq<TypeId>) -> bool {
    match target {
        TypeKind::FnDef(..) => k matches TypeKind::FnDef(e, a) && e == d && a@ == args,
        TypeKind::Enum(..) => k matches TypeKind::Enum(e, a) && e == d && a@ == args,
        TypeKind::TraitObject(..) => k matches TypeKind::TraitObject(e, a) && e == d && a@ == args,
        _ => k matches TypeKind::Def(e, a) && e == d && a@ == args,
    }
}

} // verus!
