//! Checks of the atomic intrinsics: the type an atomic operation works on,
//! and its memory-ordering arguments, which are compile-time constants.
//!
//! Arguments arrive checked: each carries the type the checker gave it.

use vstd::prelude::*;
use crate::types::{TypeId, DefId, TypeKind, TY_ERROR};
use crate::ast::{Expr, ExprKind, DataLiteral, MatchPattern, Span};
use crate::context::{Diagnostic, DiagCode, SymbolKind, Def, Scope, ScopeId, scope_resolves};
use crate::intrinsic::{
    AtomicIntrinsic, AtomicDiag, AtomicOrdering, OrderRole, ordering_of, ordering_valid_for,
    failure_within,
};
use crate::checker::{ExprChecker, diag_if};
use crate::value::ConstValue;
use crate::eval_spec::{pure_sem, known_ty};
use crate::eval_state::ConstEvalError;
use crate::simd::lemma_prefix_append;

verus! {

/// The ordering a constant denotes where it is valid in `role`: an integer, or
/// the tag of a payload-free variant of an `extern` enum.
pub open spec fn order_of_const(r: Result<ConstValue, ConstEvalError>, extern_enum: bool, role: OrderRole) -> Option<
    AtomicOrdering,
> {
    let n: Option<i128> = match r {
        Ok(ConstValue::Int(v)) => Some(v),
        Ok(ConstValue::Enum { tag, payload }) => if payload is None && extern_enum {
            Some(tag)
        } else {
            None
        },
        _ => None,
    };
    match n {
        Some(v) => match ordering_of(v) {
            Some(o) => if ordering_valid_for(role, o) {
                Some(o)
            } else {
                None
            },
            None => None,
        },
        None => None,
    }
}

/// What the check of an ordering argument reports once the argument's value
/// `r` is known: that it is no integer, no ordering, or an ordering not
/// allowed in `role`.
pub open spec fn order_diags(
    r: Result<ConstValue, ConstEvalError>,
    extern_enum: bool,
    role: OrderRole,
    span: Span,
) -> Seq<Diagnostic> {
    let n: Option<i128> = match r {
        Ok(ConstValue::Int(v)) => Some(v),
        Ok(ConstValue::Enum { tag, payload }) => if payload is None && extern_enum {
            Some(tag)
        } else {
            None
        },
        _ => None,
    };
    match r {
        Err(_) => Seq::empty(),
        Ok(_) => match n {
            None => seq![Diagnostic { code: DiagCode::AtomicOrder(AtomicDiag::OrderNotInteger, role), span }],
            Some(v) => match ordering_of(v) {
                Some(o) => diag_if(
                    !ordering_valid_for(role, o),
                    Diagnostic { code: DiagCode::AtomicOrder(AtomicDiag::OrderNotValidHere, role), span },
                ),
                None => seq![
                    Diagnostic { code: DiagCode::AtomicOrder(AtomicDiag::InvalidOrderConstant, role), span },
                ],
            },
        },
    }
}

pub open spec fn rmw_role(i: AtomicIntrinsic) -> bool {
    i is RmwAdd || i is RmwSub || i is RmwAnd || i is RmwNand || i is RmwOr || i is RmwXor
        || i is RmwMax || i is RmwMin || i is RmwUMax || i is RmwUMin
}

impl AtomicIntrinsic {
    pub open spec fn arity(self) -> nat {
        match self {
            AtomicIntrinsic::Load => 2,
            AtomicIntrinsic::Cas | AtomicIntrinsic::CasWeak => 5,
            AtomicIntrinsic::Fence => 1,
            _ => 3,
        }
    }

    /// The number of arguments the intrinsic takes.
    pub fn num_args(&self) -> (r: usize)
        ensures
            r == self.arity(),
    {
        match self {
            AtomicIntrinsic::Load => 2,
            AtomicIntrinsic::Cas | AtomicIntrinsic::CasWeak => 5,
            AtomicIntrinsic::Fence => 1,
            _ => 3,
        }
    }
}

/// `e` reads a const generic parameter that no instantiation has bound.
pub open spec fn reads_const_param(scopes: Seq<Scope>, cur: Option<ScopeId>, e: Expr) -> bool
    decreases e,
{
    match e.kind {
        ExprKind::Identifier(name) => match cur {
            Some(c) => scope_resolves(scopes, c, name) matches Some(info) && info.kind
                == SymbolKind::ConstParam,
            None => false,
        },
        ExprKind::Binary { lhs, rhs, .. } => reads_const_param(scopes, cur, *lhs)
            || reads_const_param(scopes, cur, *rhs),
        ExprKind::Assign { lhs, rhs, .. } => reads_const_param(scopes, cur, *lhs)
            || reads_const_param(scopes, cur, *rhs),
        ExprKind::Unary { operand, .. } => reads_const_param(scopes, cur, *operand),
        ExprKind::Grouped(inner) => reads_const_param(scopes, cur, *inner),
        ExprKind::FieldAccess { lhs, .. } => reads_const_param(scopes, cur, *lhs),
        ExprKind::As { lhs } => reads_const_param(scopes, cur, *lhs),
        ExprKind::GenericInstantiation { target, .. } => reads_const_param(scopes, cur, *target),
        ExprKind::IndexAccess { lhs, index } => reads_const_param(scopes, cur, *lhs)
            || reads_const_param(scopes, cur, *index),
        ExprKind::Call { callee, args } => reads_const_param(scopes, cur, *callee)
            || any_reads(scopes, cur, args@),
        ExprKind::DataInit { literal, .. } => match literal {
            DataLiteral::Scalar(v) => reads_const_param(scopes, cur, *v),
            DataLiteral::Array(vs) => any_reads(scopes, cur, vs@),
            DataLiteral::Struct(fs) => any_field_reads(scopes, cur, fs@),
            DataLiteral::Repeat { value, count } => reads_const_param(scopes, cur, *value)
                || reads_const_param(scopes, cur, *count),
        },
        ExprKind::If { cond, then_branch, else_branch } => reads_const_param(scopes, cur, *cond)
            || reads_const_param(scopes, cur, *then_branch) || match else_branch {
            Some(b) => reads_const_param(scopes, cur, *b),
            None => false,
        },
        ExprKind::Match { target, arms } => reads_const_param(scopes, cur, *target)
            || any_arm_reads(scopes, cur, arms@),
        ExprKind::Block { stmts, result } => any_reads(scopes, cur, stmts@) || match result {
            Some(r) => reads_const_param(scopes, cur, *r),
            None => false,
        },
        ExprKind::While { cond, body } => reads_const_param(scopes, cur, *cond)
            || reads_const_param(scopes, cur, *body),
        ExprKind::Return(v) => match v {
            Some(x) => reads_const_param(scopes, cur, *x),
            None => false,
        },
        ExprKind::Let { init, .. } => reads_const_param(scopes, cur, *init),
        _ => false,
    }
}

pub open spec fn any_reads(scopes: Seq<Scope>, cur: Option<ScopeId>, es: Seq<Expr>) -> bool
    decreases es,
{
    if es.len() == 0 {
        false
    } else {
        reads_const_param(scopes, cur, es[0]) || any_reads(scopes, cur, es.subrange(1, es.len() as int))
    }
}

pub open spec fn any_field_reads(scopes: Seq<Scope>, cur: Option<ScopeId>, fs: Seq<crate::ast::FieldInit>) -> bool
    decreases fs,
{
    if fs.len() == 0 {
        false
    } else {
        reads_const_param(scopes, cur, fs[0].value) || any_field_reads(scopes, cur, 
            fs.subrange(1, fs.len() as int),
        )
    }
}

pub open spec fn any_arm_reads(scopes: Seq<Scope>, cur: Option<ScopeId>, arms: Seq<crate::ast::MatchArm>) -> bool
    decreases arms,
{
    if arms.len() == 0 {
        false
    } else {
        reads_const_param(scopes, cur, arms[0].body) || any_pattern_reads(scopes, cur, arms[0].patterns@)
            || any_arm_reads(scopes, cur, arms.subrange(1, arms.len() as int))
    }
}

pub open spec fn any_pattern_reads(scopes: Seq<Scope>, cur: Option<ScopeId>, ps: Seq<MatchPattern>) -> bool
    decreases ps,
{
    if ps.len() == 0 {
        false
    } else {
        (match ps[0] {
            MatchPattern::Value(v) => reads_const_param(scopes, cur, v),
            _ => false,
        }) || any_pattern_reads(scopes, cur, ps.subrange(1, ps.len() as int))
    }
}


impl ExprChecker {
    /// Whether the ordering argument `arg` reads a const generic parameter
    /// that no instantiation has bound; such an ordering is checked once the
    /// parameter is known.
    pub fn atomic_order_arg_depends_on_unbound_const_param(&self, arg: &Expr) -> (r: bool)
        requires
            self.wf(),
        ensures
            r == self.depends_on_const_param(*arg),
        decreases arg,
    {
        match &arg.kind {
            ExprKind::Identifier(name) => match self.ctx.resolve(*name) {
                Some(info) => info.kind == SymbolKind::ConstParam,
                None => false,
            },
            ExprKind::Binary { lhs, rhs, .. } | ExprKind::Assign { lhs, rhs, .. } => self.atomic_order_arg_depends_on_unbound_const_param(lhs)
                || self.atomic_order_arg_depends_on_unbound_const_param(rhs),
            ExprKind::Unary { operand, .. } => self.atomic_order_arg_depends_on_unbound_const_param(operand),
            ExprKind::Grouped(inner) => self.atomic_order_arg_depends_on_unbound_const_param(inner),
            ExprKind::FieldAccess { lhs, .. } => self.atomic_order_arg_depends_on_unbound_const_param(lhs),
            ExprKind::As { lhs } => self.atomic_order_arg_depends_on_unbound_const_param(lhs),
            ExprKind::GenericInstantiation { target, .. } => self.atomic_order_arg_depends_on_unbound_const_param(target),
            ExprKind::IndexAccess { lhs, index } => self.atomic_order_arg_depends_on_unbound_const_param(lhs)
                || self.atomic_order_arg_depends_on_unbound_const_param(index),
            ExprKind::Call { callee, args } => self.atomic_order_arg_depends_on_unbound_const_param(callee)
                || self.any_arg_depends(args),
            ExprKind::DataInit { literal, .. } => match literal {
                DataLiteral::Scalar(v) => self.atomic_order_arg_depends_on_unbound_const_param(v),
                DataLiteral::Array(vs) => self.any_arg_depends(vs),
                DataLiteral::Struct(fs) => self.any_field_init_depends(fs),
                DataLiteral::Repeat { value, count } => self.atomic_order_arg_depends_on_unbound_const_param(value)
                    || self.atomic_order_arg_depends_on_unbound_const_param(count),
            },
            ExprKind::If { cond, then_branch, else_branch } => {
                self.atomic_order_arg_depends_on_unbound_const_param(cond)
                    || self.atomic_order_arg_depends_on_unbound_const_param(then_branch) || match else_branch {
                    Some(b) => self.atomic_order_arg_depends_on_unbound_const_param(b),
                    None => false,
                }
            },
            ExprKind::Match { target, arms } => self.atomic_order_arg_depends_on_unbound_const_param(target)
                || self.any_match_arm_depends(arms),
            ExprKind::Block { stmts, result } => self.any_arg_depends(stmts) || match result {
                Some(r) => self.atomic_order_arg_depends_on_unbound_const_param(r),
                None => false,
            },
            ExprKind::While { cond, body } => self.atomic_order_arg_depends_on_unbound_const_param(cond)
                || self.atomic_order_arg_depends_on_unbound_const_param(body),
            ExprKind::Return(v) => match v {
                Some(x) => self.atomic_order_arg_depends_on_unbound_const_param(x),
                None => false,
            },
            ExprKind::Let { init, .. } => self.atomic_order_arg_depends_on_unbound_const_param(init),
            _ => false,
        }
    }

    fn any_arg_depends(&self, es: &Vec<Expr>) -> (r: bool)
        requires
            self.wf(),
        ensures
            r == self.any_depends(es@),
        decreases es,
    {
        let mut j: usize = 0;
        assert(es@.subrange(0, es@.len() as int) =~= es@);
        while j < es.len()
            invariant
                self.wf(),
                j <= es@.len(),
                self.any_depends(es@) == self.any_depends(es@.subrange(j as int, es@.len() as int)),
            decreases es@.len() - j,
        {
            let ghost rest = es@.subrange(j as int, es@.len() as int);
            assert(rest.subrange(1, rest.len() as int) =~= es@.subrange(j + 1, es@.len() as int));
            assert(rest[0] == es@[j as int]);
            if self.atomic_order_arg_depends_on_unbound_const_param(&es[j]) {
                return true;
            }
            j = j + 1;
        }
        false
    }

    fn any_field_init_depends(&self, fs: &Vec<crate::ast::FieldInit>) -> (r: bool)
        requires
            self.wf(),
        ensures
            r == self.any_field_depends(fs@),
        decreases fs,
    {
        let mut j: usize = 0;
        assert(fs@.subrange(0, fs@.len() as int) =~= fs@);
        while j < fs.len()
            invariant
                self.wf(),
                j <= fs@.len(),
                self.any_field_depends(fs@) == self.any_field_depends(
                    fs@.subrange(j as int, fs@.len() as int),
                ),
            decreases fs@.len() - j,
        {
            let ghost rest = fs@.subrange(j as int, fs@.len() as int);
            assert(rest.subrange(1, rest.len() as int) =~= fs@.subrange(j + 1, fs@.len() as int));
            assert(rest[0] == fs@[j as int]);
            if self.atomic_order_arg_depends_on_unbound_const_param(&fs[j].value) {
                return true;
            }
            j = j + 1;
        }
        false
    }

    fn any_match_arm_depends(&self, arms: &Vec<crate::ast::MatchArm>) -> (r: bool)
        requires
            self.wf(),
        ensures
            r == self.any_arm_depends(arms@),
        decreases arms,
    {
        let mut j: usize = 0;
        assert(arms@.subrange(0, arms@.len() as int) =~= arms@);
        while j < arms.len()
            invariant
                self.wf(),
                j <= arms@.len(),
                self.any_arm_depends(arms@) == self.any_arm_depends(
                    arms@.subrange(j as int, arms@.len() as int),
                ),
            decreases arms@.len() - j,
        {
            let ghost rest = arms@.subrange(j as int, arms@.len() as int);
            assert(rest.subrange(1, rest.len() as int) =~= arms@.subrange(j + 1, arms@.len() as int));
            assert(rest[0] == arms@[j as int]);
            if self.atomic_order_arg_depends_on_unbound_const_param(&arms[j].body) {
                return true;
            }
            if self.any_value_pattern_depends(&arms[j].patterns) {
                return true;
            }
            j = j + 1;
        }
        false
    }

    fn any_value_pattern_depends(&self, ps: &Vec<MatchPattern>) -> (r: bool)
        requires
            self.wf(),
        ensures
            r == self.any_pattern_depends(ps@),
        decreases ps,
    {
        let mut j: usize = 0;
        assert(ps@.subrange(0, ps@.len() as int) =~= ps@);
        while j < ps.len()
            invariant
                self.wf(),
                j <= ps@.len(),
                self.any_pattern_depends(ps@) == self.any_pattern_depends(
                    ps@.subrange(j as int, ps@.len() as int),
                ),
            decreases ps@.len() - j,
        {
            let ghost rest = ps@.subrange(j as int, ps@.len() as int);
            assert(rest.subrange(1, rest.len() as int) =~= ps@.subrange(j + 1, ps@.len() as int));
            assert(rest[0] == ps@[j as int]);
            if let MatchPattern::Value(v) = &ps[j] {
                if self.atomic_order_arg_depends_on_unbound_const_param(v) {
                    return true;
                }
            }
            j = j + 1;
        }
        false
    }
}

impl ExprChecker {
    /// `e` has the type of an `extern` enum.
    pub open spec fn is_extern_enum_expr(self, e: Expr) -> bool {
        match self.kind_of(e.ty) {
            TypeKind::Enum(def, _) => def < self.ctx.defs@.len() && match self.ctx.defs@[def as int] {
                Def::Enum { is_extern, .. } => is_extern,
                _ => false,
            },
            _ => false,
        }
    }

    pub fn expr_is_extern_enum(&self, e: &Expr) -> (r: bool)
        requires
            self.wf(),
        ensures
            r == self.is_extern_enum_expr(*e),
    {
        let t = self.resolve_tv(e.ty);
        match self.ctx.types.get(t) {
            TypeKind::Enum(def, _) => {
                if (*def as usize) < self.ctx.defs.len() {
                    match &self.ctx.defs[*def as usize] {
                        Def::Enum { is_extern, .. } => *is_extern,
                        _ => false,
                    }
                } else {
                    false
                }
            },
            _ => false,
        }
}

    /// The ordering an ordering argument denotes, where it is a valid constant
    /// for `role`; a problem with it is reported.
    pub fn eval_atomic_order_arg(&mut self, arg: &Expr, role: OrderRole) -> (r: Option<AtomicOrdering>)
        requires
            old(self).wf(),
        ensures
            (arg.ty == TY_ERROR || old(self).depends_on_const_param(*arg)) ==> r is None && *final(self)
                == *old(self),
            arg.ty != TY_ERROR && !old(self).depends_on_const_param(*arg) ==> (pure_sem(
                old(self).ctx.types,
                Seq::empty(),
                *arg,
                0,
            ) matches Some(res) ==> r == order_of_const(res, old(self).is_extern_enum_expr(*arg), role)
                && order_diags(res, old(self).is_extern_enum_expr(*arg), role, arg.span).is_suffix_of(
                final(self).ctx.diags@,
            )),
            r matches Some(o) ==> ordering_valid_for(role, o),
            old(self).same_but_diags(*final(self)),
            old(self).ctx.diags@.is_prefix_of(final(self).ctx.diags@),
    {
        if arg.ty == TY_ERROR {
            return None;
        }
        if self.atomic_order_arg_depends_on_unbound_const_param(arg) {
            return None;
        }
        let ext = self.expr_is_extern_enum(arg);
        let value = self.const_value(arg);
        let ghost mid = self.ctx.diags@;
        let n = match value {
            Ok(ConstValue::Int(v)) => Some(v),
            Ok(ConstValue::Enum { tag, payload: None }) => if ext {
                Some(tag)
            } else {
                None
            },
            Ok(_) => None,
            Err(_) => {
                proof {
                    assert(Seq::<Diagnostic>::empty() =~= self.ctx.diags@.subrange(
                        self.ctx.diags@.len() as int,
                        self.ctx.diags@.len() as int,
                    ));
                }
                return None;
            },
        };
        let r = match n {
            None => {
                self.report(true, DiagCode::AtomicOrder(AtomicDiag::OrderNotInteger, role), arg.span);
                None
            },
            Some(n) => match AtomicOrdering::from_abi_const(n) {
                Some(o) => {
                    let ok = o.valid_for(role);
                    self.report(!ok, DiagCode::AtomicOrder(AtomicDiag::OrderNotValidHere, role), arg.span);
                    if ok {
                        Some(o)
                    } else {
                        None
                    }
                },
                None => {
                    self.report(true, DiagCode::AtomicOrder(AtomicDiag::InvalidOrderConstant, role), arg.span);
                    None
                },
            },
        };
        proof {
            let added = self.ctx.diags@.subrange(mid.len() as int, self.ctx.diags@.len() as int);
            assert(mid + added =~= self.ctx.diags@);
            lemma_prefix_append(mid, added);
            crate::eval::lemma_prefix_trans(old(self).ctx.diags@, mid, self.ctx.diags@);
            assert(added =~= order_diags(value, ext, role, arg.span));
            assert(added =~= self.ctx.diags@.subrange(
                (self.ctx.diags@.len() - added.len()) as int,
                self.ctx.diags@.len() as int,
            ));
        }
        r
    }

    /// The problems of `ty` as the type an atomic operation works on: an
    /// integer (or, where `allow_pointers`, a plain pointer) no wider than the
    /// target's lock-free atomics.
    pub open spec fn atomic_target_diags(
        self,
        ty: TypeId,
        span: Span,
        i: AtomicIntrinsic,
        allow_pointers: bool,
    ) -> Seq<Diagnostic> {
        let n = self.resolved(ty);
        if n == TY_ERROR || self.ctx.types.kind(n) is Param {
            Seq::empty()
        } else if !(self.ctx.types.is_int_ty(n) || (allow_pointers && self.ctx.types.kind(n) is Pointer)) {
            seq![Diagnostic { code: DiagCode::Atomic(AtomicDiag::UnsupportedType, i), span }]
        } else {
            match self.ctx.types.size_of(n) {
                Some(size) => diag_if(
                    8 * size > self.ctx.max_atomic_bits,
                    Diagnostic { code: DiagCode::Atomic(AtomicDiag::TooWideForTarget, i), span },
                ),
                None => Seq::empty(),
            }
        }
}

    pub fn check_atomic_target_type(&mut self, ty: TypeId, span: Span, i: AtomicIntrinsic, allow_pointers: bool)
        requires
            old(self).wf(),
        ensures
            final(self).ctx.diags@ == old(self).ctx.diags@ + old(self).atomic_target_diags(
                ty,
                span,
                i,
                allow_pointers,
            ),
            old(self).same_but_diags(*final(self)),
    {
        let n = self.resolve_tv(ty);
        if n == TY_ERROR {
            assert(old(self).atomic_target_diags(ty, span, i, allow_pointers) =~= Seq::empty());
            return;
        }
        let (is_param, is_ptr) = match self.ctx.types.get(n) {
            TypeKind::Param(_) => (true, false),
            TypeKind::Pointer { .. } => (false, true),
            _ => (false, false),
        };
        if is_param {
            assert(old(self).atomic_target_diags(ty, span, i, allow_pointers) =~= Seq::empty());
            return;
        }
        let supported = self.ctx.types.is_integer(n) || (allow_pointers && is_ptr);
        if !supported {
            self.report(true, DiagCode::Atomic(AtomicDiag::UnsupportedType, i), span);
            return;
        }
        match self.ctx.types.layout_size(n) {
            Some(size) => {
                let too_wide = size > 0x1fff_ffff_ffff_ffffu64 || size * 8 > self.ctx.max_atomic_bits;
                self.report(too_wide, DiagCode::Atomic(AtomicDiag::TooWideForTarget, i), span);
            },
            None => {
                assert(old(self).atomic_target_diags(ty, span, i, allow_pointers) =~= Seq::empty());
            },
        }
}

    /// The orderings of a compare-and-swap, where both are constants valid in
    /// their places.
    pub open spec fn cas_orders(self, args: Seq<Expr>) -> Option<(AtomicOrdering, AtomicOrdering)> {
            if args[3].ty == TY_ERROR || self.depends_on_const_param(args[3]) || args[4].ty == TY_ERROR
                || self.depends_on_const_param(args[4]) {
                None
            } else {
                match (
                    pure_sem(self.ctx.types, Seq::empty(), args[3], 0),
                    pure_sem(self.ctx.types, Seq::empty(), args[4], 0),
                ) {
                    (Some(s), Some(f)) => match (
                        order_of_const(s, self.is_extern_enum_expr(args[3]), OrderRole::CasSuccess),
                        order_of_const(f, self.is_extern_enum_expr(args[4]), OrderRole::CasFailure),
                    ) {
                        (Some(so), Some(fo)) => Some((so, fo)),
                        _ => None,
                    },
                    _ => None,
                }
            }
}

    /// What the check of the ordering argument `arg` for `role` reports at the
    /// end, where that is known: nothing for an argument of no type or one
    /// that depends on a const parameter, else what its value calls for.
    pub open spec fn order_tail(self, arg: Expr, role: OrderRole) -> Option<Seq<Diagnostic>> {
        if arg.ty == TY_ERROR || self.depends_on_const_param(arg) {
            Some(Seq::empty())
        } else {
            match pure_sem(self.ctx.types, Seq::empty(), arg, 0) {
                Some(res) => Some(order_diags(res, self.is_extern_enum_expr(arg), role, arg.span)),
                None => None,
            }
        }
    }

    /// The problem with the type an atomic intrinsic works on: its first
    /// generic argument; a fence works on none.
    pub open spec fn call_target_diags(self, i: AtomicIntrinsic, callee_ty: TypeId, args: Seq<Expr>) -> Seq<
        Diagnostic,
    > {
        if i is Fence {
            Seq::empty()
        } else {
            match self.ctx.types.kind(self.ctx.types.norm(known_ty(self.ctx.types, callee_ty))) {
                TypeKind::FnDef(_, gargs) => if 0 < gargs@.len() {
                    self.atomic_target_diags(gargs@[0], args[0].span, i, !rmw_role(i))
                } else {
                    Seq::empty()
                },
                _ => Seq::empty(),
            }
        }
    }

    /// The one ordering argument of an atomic intrinsic other than a
    /// compare-and-swap: its index and its role.
    pub open spec fn single_order_arg(i: AtomicIntrinsic) -> (int, OrderRole) {
        match i {
            AtomicIntrinsic::Fence => (0, OrderRole::Fence),
            AtomicIntrinsic::Load => (1, OrderRole::Load),
            AtomicIntrinsic::Store => (2, OrderRole::Store),
            _ => (2, OrderRole::Rmw),
        }
    }

    /// The report of a compare-and-swap whose failure ordering is stronger
    /// than its success ordering.
    pub open spec fn cas_check_diags(self, args: Seq<Expr>) -> Seq<Diagnostic> {
        match self.cas_orders(args) {
            Some((s, f)) => diag_if(
                !failure_within(f, s),
                Diagnostic {
                    code: DiagCode::AtomicOrder(AtomicDiag::FailureStrongerThanSuccess, OrderRole::CasFailure),
                    span: args[4].span,
                },
            ),
            None => Seq::empty(),
        }
    }

    /// Checks a call of the atomic intrinsic `i` whose arguments have been
    /// checked: the type it works on, and each ordering argument.
    pub fn check_atomic_intrinsic_call(&mut self, i: AtomicIntrinsic, callee_ty: TypeId, args: &Vec<Expr>) -> (r:
        bool)
        requires
            old(self).wf(),
            args@.len() >= i.arity(),
        ensures
            r,
            old(self).same_but_diags(*final(self)),
            (old(self).ctx.diags@ + old(self).call_target_diags(i, callee_ty, args@)).is_prefix_of(
                final(self).ctx.diags@,
            ),
            !(i is Cas || i is CasWeak) ==> (old(self).order_tail(
                args@[Self::single_order_arg(i).0],
                Self::single_order_arg(i).1,
            ) matches Some(ds) ==> ds.is_suffix_of(final(self).ctx.diags@)),
            (i is Cas || i is CasWeak) ==> (old(self).order_tail(args@[3], OrderRole::CasSuccess) is Some
                ==> (old(self).order_tail(args@[4], OrderRole::CasFailure) matches Some(ds) ==> (ds
                + old(self).cas_check_diags(args@)).is_suffix_of(final(self).ctx.diags@))),
    {
        let ghost d0 = self.ctx.diags@;
        proof {
            assert(d0 + Seq::<Diagnostic>::empty() =~= d0);
            lemma_prefix_append(d0, Seq::<Diagnostic>::empty());
        }
        if let AtomicIntrinsic::Fence = i {
            let _ = self.eval_atomic_order_arg(&args[0], OrderRole::Fence);
            proof {
                self.lemma_same_tail(*old(self), args@[0], OrderRole::Fence);
            }
            return true;
        }
        let allow_pointers = !is_rmw_exec(i);
        match self.intrinsic_generic_arg(callee_ty, 0) {
            Some(target) => {
                self.check_atomic_target_type(target, args[0].span, i, allow_pointers);
            },
            None => {},
        }
        let ghost d1 = self.ctx.diags@;
        proof {
            assert(d1 == d0 + old(self).call_target_diags(i, callee_ty, args@));
            lemma_prefix_append(d0, old(self).call_target_diags(i, callee_ty, args@));
        }
        match i {
            AtomicIntrinsic::Load => {
                let _ = self.eval_atomic_order_arg(&args[1], OrderRole::Load);
                proof {
                    self.lemma_same_tail(*old(self), args@[1], OrderRole::Load);
                }
            },
            AtomicIntrinsic::Store => {
                let _ = self.eval_atomic_order_arg(&args[2], OrderRole::Store);
                proof {
                    self.lemma_same_tail(*old(self), args@[2], OrderRole::Store);
                }
            },
            AtomicIntrinsic::Cas | AtomicIntrinsic::CasWeak => {
                let ghost s1 = *self;
                let success = self.eval_atomic_order_arg(&args[3], OrderRole::CasSuccess);
                let ghost d2 = self.ctx.diags@;
                let ghost s2 = *self;
                let failure = self.eval_atomic_order_arg(&args[4], OrderRole::CasFailure);
                proof {
                    crate::eval::lemma_prefix_trans(d1, d2, self.ctx.diags@);
                    s1.lemma_same_tail(*old(self), args@[3], OrderRole::CasSuccess);
                    s2.lemma_same_tail(*old(self), args@[4], OrderRole::CasFailure);
                    s2.lemma_same_tail(s1, args@[3], OrderRole::CasSuccess);
                }
                let ghost d3 = self.ctx.diags@;
                let cond = match (success, failure) {
                    (Some(s), Some(f)) => !f.failure_not_stronger_than(s),
                    _ => false,
                };
                self.report(
                    cond,
                    DiagCode::AtomicOrder(AtomicDiag::FailureStrongerThanSuccess, OrderRole::CasFailure),
                    args[4].span,
                );
                proof {
                    let added = diag_if(
                        cond,
                        Diagnostic {
                            code: DiagCode::AtomicOrder(AtomicDiag::FailureStrongerThanSuccess, OrderRole::CasFailure),
                            span: args@[4].span,
                        },
                    );
                    lemma_prefix_append(d3, added);
                    crate::eval::lemma_prefix_trans(d1, d3, self.ctx.diags@);
                    if old(self).order_tail(args@[3], OrderRole::CasSuccess) is Some {
                        if let Some(ds) = old(self).order_tail(args@[4], OrderRole::CasFailure) {
                            assert(added == old(self).cas_check_diags(args@));
                            lemma_suffix_append(ds, d3, added);
                        }
                    }
                }
            },
            _ => {
                let _ = self.eval_atomic_order_arg(&args[2], OrderRole::Rmw);
                proof {
                    self.lemma_same_tail(*old(self), args@[2], OrderRole::Rmw);
                }
            },
        }
        proof {
            crate::eval::lemma_prefix_trans(d0, d1, self.ctx.diags@);
        }
        true
    }

    /// The end of an ordering check depends on nothing that diagnostics change.
    pub proof fn lemma_same_tail(self, other: Self, arg: Expr, role: OrderRole)
        requires
            other.same_but_diags(self),
        ensures
            self.order_tail(arg, role) == other.order_tail(arg, role),
    {
    }
}

/// Appending to both keeps a suffix a suffix.
pub proof fn lemma_suffix_append(a: Seq<Diagnostic>, x: Seq<Diagnostic>, b: Seq<Diagnostic>)
    requires
        a.is_suffix_of(x),
    ensures
        (a + b).is_suffix_of(x + b),
{
    let xb = x + b;
    assert((a + b) =~= xb.subrange((xb.len() - (a + b).len()) as int, xb.len() as int)) by {
        assert forall|k: int| 0 <= k < (a + b).len() implies (a + b)[k] == xb[(xb.len() - (a
            + b).len()) + k] by {
            if k < a.len() {
                assert(a[k] == x.subrange((x.len() - a.len()) as int, x.len() as int)[k]);
            }
        }
    }
}

fn is_rmw_exec(i: AtomicIntrinsic) -> (r: bool)
    ensures
        r == rmw_role(i),
{
    match i {
        AtomicIntrinsic::RmwAdd | AtomicIntrinsic::RmwSub | AtomicIntrinsic::RmwAnd
        | AtomicIntrinsic::RmwNand | AtomicIntrinsic::RmwOr | AtomicIntrinsic::RmwXor
        | AtomicIntrinsic::RmwMax | AtomicIntrinsic::RmwMin | AtomicIntrinsic::RmwUMax
        | AtomicIntrinsic::RmwUMin => true,
        _ => false,
    }
}

impl ExprChecker {
    /// `e` reads a const generic parameter that no instantiation has bound.
    pub open spec fn depends_on_const_param(self, e: Expr) -> bool {
        reads_const_param(self.ctx.scopes@, self.ctx.current_scope, e)
    }

    pub open spec fn any_depends(self, es: Seq<Expr>) -> bool {
        any_reads(self.ctx.scopes@, self.ctx.current_scope, es)
    }

    pub open spec fn any_field_depends(self, fs: Seq<crate::ast::FieldInit>) -> bool {
        any_field_reads(self.ctx.scopes@, self.ctx.current_scope, fs)
    }

    pub open spec fn any_arm_depends(self, arms: Seq<crate::ast::MatchArm>) -> bool {
        any_arm_reads(self.ctx.scopes@, self.ctx.current_scope, arms)
    }

    pub open spec fn any_pattern_depends(self, ps: Seq<MatchPattern>) -> bool {
        any_pattern_reads(self.ctx.scopes@, self.ctx.current_scope, ps)
    }
}

} // verus!
