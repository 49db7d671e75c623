//! The compile-time evaluator of constant expressions. It reads the semantic
//! context, keeps its own local state, and collects the diagnostics it
//! emits; the caller moves them into the context.

use vstd::prelude::*;
use vstd::arithmetic::power2::pow2;
use crate::types::{TypeId, SymbolId, DefId, TypeKind, PrimitiveType, TypeRegistry, primitive_size, TY_ERROR};
use crate::ast::{Expr, ExprKind, BinaryOperator, UnaryOperator, AssignmentOperator, DataLiteral, Span, Pattern, MatchPattern, MatchArm, LetElse};
use crate::value::{ConstValue, Values, Fields, ConstBinaryOp, eval_binary_values};
use crate::arith::{ConstArithmeticError, truncate_to_width, int_neg, pow2_u128};
use crate::context::{SemaContext, Diagnostic, DiagCode, SymbolKind, SymbolInfo, Def, ScopeId, Intrinsic, EnumVariant};
use crate::eval_state::{ConstEvalCore, ConstEvalError, GenericArg, ConstGeneric, ConstGenericValue, LoopControl, lookup_scopes, define_in, lemma_define_in_lookup, slot_of, find_entry, lemma_set_entry_find, lemma_slot_of_range};
use crate::eval_spec::{
    MAX_CONST_DEPTH, const_binary_op_spec, known_ty, resolve_ty, unsigned_prim, literal_magnitude,
    prim_bits, bind_literal, fit_int, post_check, cast_int, unary_sem, map_arith, pure_list,
    pure_sem, values_of, lemma_values_of_seq, usize_of, int_of,
};

verus! {

/// Iteration limit of a constant `while` loop.
pub const MAX_CONST_LOOP_ITERATIONS: usize = 100000;

/// The operator of constant evaluation that a binary operator denotes.
pub fn const_binary_op(op: BinaryOperator) -> (r: Option<ConstBinaryOp>)
    ensures
        r == Some(const_binary_op_spec(op)),
{
    Some(
        match op {
            BinaryOperator::Add => ConstBinaryOp::Add,
            BinaryOperator::Subtract => ConstBinaryOp::Subtract,
            BinaryOperator::Multiply => ConstBinaryOp::Multiply,
            BinaryOperator::Divide => ConstBinaryOp::Divide,
            BinaryOperator::Modulo => ConstBinaryOp::Modulo,
            BinaryOperator::ShiftLeft => ConstBinaryOp::ShiftLeft,
            BinaryOperator::ShiftRight => ConstBinaryOp::ShiftRight,
            BinaryOperator::BitwiseAnd => ConstBinaryOp::BitwiseAnd,
            BinaryOperator::BitwiseOr => ConstBinaryOp::BitwiseOr,
            BinaryOperator::BitwiseXor => ConstBinaryOp::BitwiseXor,
            BinaryOperator::LogicalAnd => ConstBinaryOp::LogicalAnd,
            BinaryOperator::LogicalOr => ConstBinaryOp::LogicalOr,
            BinaryOperator::Equal => ConstBinaryOp::Equal,
            BinaryOperator::NotEqual => ConstBinaryOp::NotEqual,
            BinaryOperator::LessThan => ConstBinaryOp::LessThan,
            BinaryOperator::LessOrEqual => ConstBinaryOp::LessOrEqual,
            BinaryOperator::GreaterThan => ConstBinaryOp::GreaterThan,
            BinaryOperator::GreaterOrEqual => ConstBinaryOp::GreaterOrEqual,
        },
    )
}

/// The diagnostic reported for an arithmetic error.
pub open spec fn arith_diag(e: ConstArithmeticError) -> DiagCode {
    match e {
        ConstArithmeticError::DivisionByZero => DiagCode::DivisionByZero,
        ConstArithmeticError::ModuloByZero => DiagCode::ModuloByZero,
        ConstArithmeticError::DivisionOverflow => DiagCode::DivisionOverflow,
        ConstArithmeticError::ModuloOverflow => DiagCode::ModuloOverflow,
        ConstArithmeticError::NegativeShift => DiagCode::NegativeShift,
        ConstArithmeticError::ShiftTooLarge => DiagCode::ShiftTooLarge,
        ConstArithmeticError::UnsupportedIntegerOperator => DiagCode::UnsupportedIntegerOperator,
        ConstArithmeticError::UnsupportedBoolOperator => DiagCode::UnsupportedBoolOperator,
        ConstArithmeticError::UnsupportedEnumOperator => DiagCode::UnsupportedEnumOperator,
        ConstArithmeticError::TypeMismatch => DiagCode::BinaryTypeMismatch,
    }
}

pub proof fn lemma_prefix_trans<T>(a: Seq<T>, b: Seq<T>, c: Seq<T>)
    requires
        a.is_prefix_of(b),
        b.is_prefix_of(c),
    ensures
        a.is_prefix_of(c),
{
    assert(a =~= c.subrange(0, a.len() as int)) by {
        assert forall|i: int| 0 <= i < a.len() implies a[i] == c[i] by {
            assert(a[i] == b[i]);
        }
    }
}

pub struct ConstEvaluator {
    pub core: ConstEvalCore,
    /// Scopes of the constant definitions being evaluated, innermost last;
    /// names are resolved from the innermost one.
    pub const_scopes: Vec<ScopeId>,
    /// Diagnostics emitted so far.
    pub diags: Vec<Diagnostic>,
}

impl ConstEvaluator {
    pub open spec fn wf(self) -> bool {
        self.core.wf()
    }

    /// What every evaluation step keeps: well-formedness, the substitutions in
    /// force, the scopes of the constants being evaluated, and the
    /// diagnostics already emitted.
    pub open spec fn keeps(self, after: Self) -> bool {
        &&& after.wf()
        &&& after.core.substs() == self.core.substs()
        &&& after.const_scopes@ == self.const_scopes@
        &&& self.diags@.is_prefix_of(after.diags@)
    }

    pub fn new() -> (r: Self)
        ensures
            r.wf(),
            r.core.substs().len() == 0,
            r.core.values().len() == 0,
            r.const_scopes@.len() == 0,
            r.diags@.len() == 0,
    {
        ConstEvaluator { core: ConstEvalCore::new(), const_scopes: Vec::new(), diags: Vec::new() }
    }

    /// The evaluator with `map` as its innermost generic substitution.
    pub fn with_type_substs(self, map: Vec<(SymbolId, GenericArg)>) -> (r: Self)
        requires
            self.wf(),
        ensures
            r.wf(),
            r.core.substs() == self.core.substs().push(map@),
            r.core.values() == self.core.values(),
            r.diags == self.diags,
            r.const_scopes == self.const_scopes,
    {
        let mut s = self;
        s.core.push_type_subst(map);
        s
    }

    fn emit(&mut self, code: DiagCode, span: Span)
        ensures
            final(self).diags@ == old(self).diags@.push(Diagnostic { code, span }),
            final(self).core == old(self).core,
            final(self).const_scopes == old(self).const_scopes,
    {
        self.diags.push(Diagnostic { code, span });
    }

    /// The type `t` seen through the substitutions in force.
    pub fn resolved_type(&self, ctx: &SemaContext, t: TypeId) -> (r: TypeId)
        requires
            ctx.wf(),
        ensures
            r == resolve_ty(ctx.types, self.core.substs(), t),
            ctx.types.valid(r),
    {
        let t0 = if (t as usize) < ctx.types.num_types() {
            t
        } else {
            TY_ERROR
        };
        let n = ctx.types.normalize(t0);
        match ctx.types.get(n) {
            TypeKind::Param(name) => match self.core.lookup_subst(*name) {
                Some(GenericArg::Type(u)) => {
                    let u0 = if (u as usize) < ctx.types.num_types() {
                        u
                    } else {
                        TY_ERROR
                    };
                    ctx.types.normalize(u0)
                },
                _ => n,
            },
            _ => n,
        }
    }

    fn is_unsigned_ty(types: &TypeRegistry, t: TypeId) -> (r: bool)
        requires
            types.valid(t),
        ensures
            r == unsigned_prim(*types, t),
    {
        match types.get(t) {
            TypeKind::Primitive(p) => p.unsigned(),
            _ => false,
        }
    }

    /// Whether `expr` is computed with unsigned integer semantics.
    pub fn expr_uses_unsigned_integer_semantics(&self, ctx: &SemaContext, expr: &Expr) -> (r: bool)
        requires
            ctx.wf(),
        ensures
            r == unsigned_prim(ctx.types, resolve_ty(ctx.types, self.core.substs(), expr.ty)),
    {
        let t = self.resolved_type(ctx, expr.ty);
        Self::is_unsigned_ty(&ctx.types, t)
    }

    /// An integer literal, possibly negated or wrapped in a scalar literal:
    /// whether it is negated, and its magnitude.
    pub fn integer_literal_magnitude(expr: &Expr) -> (r: Option<(bool, u128)>)
        ensures
            r == literal_magnitude(*expr),
        decreases expr,
    {
        match &expr.kind {
            ExprKind::Integer(v) => Some((false, *v)),
            ExprKind::Unary { op, operand } => {
                if *op == UnaryOperator::Negate {
                    match &operand.kind {
                        ExprKind::Integer(v) => Some((true, *v)),
                        _ => None,
                    }
                } else {
                    None
                }
            },
            ExprKind::DataInit { literal, .. } => match literal {
                DataLiteral::Scalar(inner) => Self::integer_literal_magnitude(inner),
                _ => None,
            },
            _ => None,
        }
    }

    fn prim_size(types: &TypeRegistry, p: PrimitiveType) -> (r: Option<u64>)
        requires
            types.wf(),
        ensures
            r == primitive_size(p, types.ptr_bytes()),
    {
        match p {
            PrimitiveType::Void | PrimitiveType::Never => None,
            PrimitiveType::Bool | PrimitiveType::I8 | PrimitiveType::U8 => Some(1),
            PrimitiveType::I16 | PrimitiveType::U16 => Some(2),
            PrimitiveType::I32 | PrimitiveType::U32 | PrimitiveType::F32 => Some(4),
            PrimitiveType::I64 | PrimitiveType::U64 | PrimitiveType::F64 => Some(8),
            PrimitiveType::I128 | PrimitiveType::U128 => Some(16),
            PrimitiveType::ISize | PrimitiveType::USize => Some(types.pointer_size()),
        }
    }

    /// Binds a literal of magnitude `mag` to the integer primitive `p`.
    fn bind_integer_literal_to_type(
        &mut self,
        span: Span,
        p: PrimitiveType,
        bits: u64,
        neg: bool,
        mag: u128,
    ) -> (r: Result<ConstValue, ConstEvalError>)
        requires
            p.is_int(),
            8 <= bits <= 128,
        ensures
            r == bind_literal(p, bits as nat, neg, mag),
            final(self).core == old(self).core,
            final(self).const_scopes == old(self).const_scopes,
            old(self).diags@.is_prefix_of(final(self).diags@),
    {
        if p.unsigned() {
            if neg {
                self.emit(DiagCode::NegativeToUnsigned, span);
                return Err(ConstEvalError);
            }
            if bits < 128 && mag >= pow2_u128(bits as u32) {
                self.emit(DiagCode::LiteralOutOfRange, span);
                return Err(ConstEvalError);
            }
            Ok(ConstValue::Int(mag as i128))
        } else {
            let half = pow2_u128((bits - 1) as u32);
            if neg {
                if mag > half {
                    self.emit(DiagCode::LiteralOutOfRange, span);
                    return Err(ConstEvalError);
                }
                if mag == 0x8000_0000_0000_0000_0000_0000_0000_0000u128 {
                    return Ok(ConstValue::Int(i128::MIN));
                }
                proof {
                    if bits < 128 {
                        vstd::arithmetic::power2::lemma_pow2_strictly_increases((bits - 1) as nat, 127);
                    }
                    crate::arith::lemma_pow2_127();
                }
                Ok(ConstValue::Int(0i128 - (mag as i128)))
            } else {
                if mag >= half {
                    self.emit(DiagCode::LiteralOutOfRange, span);
                    return Err(ConstEvalError);
                }
                Ok(ConstValue::Int(mag as i128))
            }
        }
    }

    /// Fits a computed integer to the integer primitive `p`.
    fn fit_integer_to_type(&mut self, span: Span, p: PrimitiveType, bits: u64, x: i128) -> (r: Result<
        ConstValue,
        ConstEvalError,
    >)
        requires
            p.is_int(),
            8 <= bits <= 128,
        ensures
            r == fit_int(p, bits as nat, x),
            final(self).core == old(self).core,
            final(self).const_scopes == old(self).const_scopes,
            old(self).diags@.is_prefix_of(final(self).diags@),
    {
        if p.unsigned() {
            if bits < 128 {
                let u = truncate_to_width(x, bits);
                proof {
                    if bits < 127 {
                        vstd::arithmetic::power2::lemma_pow2_strictly_increases(bits as nat, 127);
                    }
                    crate::arith::lemma_pow2_127();
                }
                Ok(ConstValue::Int(u as i128))
            } else {
                Ok(ConstValue::Int(x))
            }
        } else if bits < 128 {
            proof {
                if bits < 128 {
                    vstd::arithmetic::power2::lemma_pow2_strictly_increases((bits - 1) as nat, 127);
                }
                crate::arith::lemma_pow2_127();
            }
            let half = pow2_u128((bits - 1) as u32) as i128;
            if -half <= x && x < half {
                Ok(ConstValue::Int(x))
            } else {
                self.emit(DiagCode::LiteralOutOfRange, span);
                Err(ConstEvalError)
            }
        } else {
            Ok(ConstValue::Int(x))
        }
    }

    /// The checks applied to every evaluated value: an integer given a
    /// primitive integer type is bound to that type.
    pub fn apply_post_eval_checks(&mut self, ctx: &SemaContext, expr: &Expr, value: ConstValue) -> (r:
        Result<ConstValue, ConstEvalError>)
        requires
            ctx.wf(),
        ensures
            r == post_check(ctx.types, resolve_ty(ctx.types, old(self).core.substs(), expr.ty), *expr, value),
            final(self).core == old(self).core,
            final(self).const_scopes == old(self).const_scopes,
            old(self).diags@.is_prefix_of(final(self).diags@),
    {
        match value {
            ConstValue::Int(x) => {
                let norm = self.resolved_type(ctx, expr.ty);
                match ctx.types.get(norm) {
                    TypeKind::Primitive(p) => {
                        let size = Self::prim_size(&ctx.types, *p);
                        let is_int = p.signed() || p.unsigned();
                        match Self::integer_literal_magnitude(expr) {
                            Some((neg, mag)) => match size {
                                None => {
                                    self.emit(DiagCode::LayoutUnknown, expr.span);
                                    Err(ConstEvalError)
                                },
                                Some(s) => {
                                    if is_int {
                                        self.bind_integer_literal_to_type(expr.span, *p, s * 8, neg, mag)
                                    } else {
                                        Ok(ConstValue::Int(x))
                                    }
                                },
                            },
                            None => {
                                if is_int {
                                    let s = size.unwrap();
                                    self.fit_integer_to_type(expr.span, *p, s * 8, x)
                                } else {
                                    Ok(ConstValue::Int(x))
                                }
                            },
                        }
                    },
                    _ => Ok(ConstValue::Int(x)),
                }
            },
            other => Ok(other),
        }
    }

    /// Reports an arithmetic error.
    pub fn emit_arithmetic_error(&mut self, error: ConstArithmeticError, span: Span) -> (r: ConstEvalError)
        ensures
            final(self).diags@ == old(self).diags@.push(Diagnostic { code: arith_diag(error), span }),
            final(self).core == old(self).core,
            final(self).const_scopes == old(self).const_scopes,
    {
        let code = match error {
            ConstArithmeticError::DivisionByZero => DiagCode::DivisionByZero,
            ConstArithmeticError::ModuloByZero => DiagCode::ModuloByZero,
            ConstArithmeticError::DivisionOverflow => DiagCode::DivisionOverflow,
            ConstArithmeticError::ModuloOverflow => DiagCode::ModuloOverflow,
            ConstArithmeticError::NegativeShift => DiagCode::NegativeShift,
            ConstArithmeticError::ShiftTooLarge => DiagCode::ShiftTooLarge,
            ConstArithmeticError::UnsupportedIntegerOperator => DiagCode::UnsupportedIntegerOperator,
            ConstArithmeticError::UnsupportedBoolOperator => DiagCode::UnsupportedBoolOperator,
            ConstArithmeticError::UnsupportedEnumOperator => DiagCode::UnsupportedEnumOperator,
            ConstArithmeticError::TypeMismatch => DiagCode::BinaryTypeMismatch,
        };
        self.emit(code, span);
        ConstEvalError
    }
}


/// The binary operator a compound assignment applies.
pub open spec fn compound_op(op: AssignmentOperator) -> Option<ConstBinaryOp> {
    match op {
        AssignmentOperator::AddAssign => Some(ConstBinaryOp::Add),
        AssignmentOperator::SubtractAssign => Some(ConstBinaryOp::Subtract),
        AssignmentOperator::MultiplyAssign => Some(ConstBinaryOp::Multiply),
        AssignmentOperator::DivideAssign => Some(ConstBinaryOp::Divide),
        AssignmentOperator::ModuloAssign => Some(ConstBinaryOp::Modulo),
        AssignmentOperator::BitwiseAndAssign => Some(ConstBinaryOp::BitwiseAnd),
        AssignmentOperator::BitwiseOrAssign => Some(ConstBinaryOp::BitwiseOr),
        AssignmentOperator::BitwiseXorAssign => Some(ConstBinaryOp::BitwiseXor),
        AssignmentOperator::ShiftLeftAssign => Some(ConstBinaryOp::ShiftLeft),
        AssignmentOperator::ShiftRightAssign => Some(ConstBinaryOp::ShiftRight),
        AssignmentOperator::Assign => None,
    }
}

/// The value a compound assignment stores: plain assignment stores the right
/// operand; the others combine two integers, shifting arithmetically.
pub open spec fn compound_spec(lhs: ConstValue, op: AssignmentOperator, rhs: ConstValue) -> Result<
    ConstValue,
    ConstEvalError,
> {
    match compound_op(op) {
        None => Ok(rhs),
        Some(bop) => match (lhs, rhs) {
            (ConstValue::Int(l), ConstValue::Int(r)) => map_arith(
                crate::value::binary_spec(ConstValue::Int(l), bop, ConstValue::Int(r), false),
            ),
            _ => Err(ConstEvalError),
        },
    }
}

/// `prefix` in front of the values of a list result.
pub open spec fn prepend_list(
    prefix: Seq<ConstValue>,
    r: Option<Result<Seq<ConstValue>, ConstEvalError>>,
) -> Option<Result<Seq<ConstValue>, ConstEvalError>> {
    match r {
        Some(Ok(vs)) => Some(Ok(prefix + vs)),
        other => other,
    }
}

impl ConstEvaluator {
    /// Applies an assignment operator to the stored and the assigned value.
    pub fn apply_assignment_operator(
        &mut self,
        lhs: ConstValue,
        op: AssignmentOperator,
        rhs: ConstValue,
        span: Span,
    ) -> (r: Result<ConstValue, ConstEvalError>)
        ensures
            r == compound_spec(lhs, op, rhs),
            final(self).core == old(self).core,
            final(self).const_scopes == old(self).const_scopes,
            old(self).diags@.is_prefix_of(final(self).diags@),
    {
        let bop = match op {
            AssignmentOperator::Assign => {
                return Ok(rhs);
            },
            AssignmentOperator::AddAssign => ConstBinaryOp::Add,
            AssignmentOperator::SubtractAssign => ConstBinaryOp::Subtract,
            AssignmentOperator::MultiplyAssign => ConstBinaryOp::Multiply,
            AssignmentOperator::DivideAssign => ConstBinaryOp::Divide,
            AssignmentOperator::ModuloAssign => ConstBinaryOp::Modulo,
            AssignmentOperator::BitwiseAndAssign => ConstBinaryOp::BitwiseAnd,
            AssignmentOperator::BitwiseOrAssign => ConstBinaryOp::BitwiseOr,
            AssignmentOperator::BitwiseXorAssign => ConstBinaryOp::BitwiseXor,
            AssignmentOperator::ShiftLeftAssign => ConstBinaryOp::ShiftLeft,
            AssignmentOperator::ShiftRightAssign => ConstBinaryOp::ShiftRight,
        };
        self.apply_binary_assignment(lhs, bop, rhs, span)
    }

    /// Applies the binary operator of a compound assignment to the stored
    /// and the assigned integer; other values are a type mismatch.
    pub fn apply_binary_assignment(&mut self, lhs: ConstValue, op: ConstBinaryOp, rhs: ConstValue, span: Span) -> (r:
        Result<ConstValue, ConstEvalError>)
        ensures
            r == (match (lhs, rhs) {
                (ConstValue::Int(l), ConstValue::Int(r)) => map_arith(
                    crate::value::binary_spec(ConstValue::Int(l), op, ConstValue::Int(r), false),
                ),
                _ => Err(ConstEvalError),
            }),
            final(self).core == old(self).core,
            final(self).const_scopes == old(self).const_scopes,
            old(self).diags@.is_prefix_of(final(self).diags@),
    {
        proof {
            crate::traits::lemma_prefix_refl(self.diags@);
        }
        match (&lhs, &rhs) {
            (ConstValue::Int(_), ConstValue::Int(_)) => match eval_binary_values(lhs, op, rhs, false) {
                Ok(v) => Ok(v),
                Err(e) => {
                    let r = self.emit_arithmetic_error(e, span);
                    proof {
                        assert(old(self).diags@ =~= self.diags@.subrange(0, old(self).diags@.len() as int));
                    }
                    Err(r)
                },
            },
            _ => {
                self.emit(DiagCode::CompoundTypeMismatch, span);
                proof {
                    assert(old(self).diags@ =~= self.diags@.subrange(0, old(self).diags@.len() as int));
                }
                Err(ConstEvalError)
            },
        }
    }

    /// Evaluates `expr` at recursion depth `depth`.
    #[verifier::rlimit(100)]
    #[verifier::spinoff_prover]
    pub fn eval_inner(&mut self, ctx: &SemaContext, expr: &Expr, depth: usize) -> (r: Result<
        ConstValue,
        ConstEvalError,
    >)
        requires
            ctx.wf(),
            old(self).wf(),
        ensures
            old(self).keeps(*final(self)),
            pure_sem(ctx.types, old(self).core.substs(), *expr, depth as int) is Some ==> final(self).core == old(self).core,
            depth > MAX_CONST_DEPTH ==> r is Err && final(self).diags@ == old(self).diags@.push(
                Diagnostic { code: DiagCode::ConstDepthExceeded, span: expr.span },
            ) && final(self).core == old(self).core,
            pure_sem(ctx.types, old(self).core.substs(), *expr, depth as int) matches Some(res)
                ==> r == res,
            depth <= MAX_CONST_DEPTH ==> (old(self).stateful_sem(*ctx, *expr, depth as int) matches Some(raw) ==> r
                == post_raw(ctx.types, old(self).core.substs(), *expr, raw)),
        decreases 101 - depth, 4int,
    {
        if depth > MAX_CONST_DEPTH {
            self.emit(DiagCode::ConstDepthExceeded, expr.span);
            return Err(ConstEvalError);
        }
        let ghost substs = self.core.substs();
        let raw: Result<ConstValue, ConstEvalError> = match &expr.kind {
            ExprKind::Integer(v) => Ok(ConstValue::Int(*v as i128)),
            ExprKind::Bool(b) => Ok(ConstValue::Bool(*b)),
            ExprKind::Char(c) => Ok(ConstValue::Int(*c as i128)),
            ExprKind::ByteChar(c) => Ok(ConstValue::Int(*c as i128)),
            ExprKind::Str(s) => Ok(ConstValue::Str(*s)),
            ExprKind::Undef => Ok(ConstValue::Undef),
            ExprKind::Grouped(inner) => self.eval_inner(ctx, inner, depth + 1),
            ExprKind::Binary { lhs, op, rhs } => self.eval_binary(ctx, lhs, *op, rhs, depth, expr.span),
            ExprKind::Unary { op, operand } => self.eval_unary(ctx, *op, operand, depth, expr.span),
            ExprKind::As { lhs } => self.eval_cast(ctx, lhs, expr.ty, depth, expr.span),
            ExprKind::If { cond, then_branch, else_branch } => self.eval_const_if(
                ctx,
                cond,
                then_branch,
                else_branch,
                depth,
                expr.span,
            ),
            ExprKind::DataInit { literal, .. } => self.eval_data_init(
                ctx,
                literal,
                expr.ty,
                depth,
                expr.span,
            ),
            ExprKind::Identifier(name) => self.eval_identifier(ctx, *name, depth, expr.span),
            ExprKind::Block { stmts, result } => self.eval_const_block(ctx, stmts, result, depth),
            ExprKind::Let { pattern, init, else_clause } => self.eval_let(
                ctx,
                pattern,
                init,
                else_clause,
                depth,
                expr.span,
            ),
            ExprKind::While { cond, body } => self.eval_const_while(ctx, cond, body, depth, expr.span),
            ExprKind::Assign { lhs, op, rhs } => self.eval_const_assign(
                ctx,
                lhs,
                *op,
                rhs,
                depth,
                expr.span,
            ),
            ExprKind::Break => self.eval_loop_control(LoopControl::Break, expr.span),
            ExprKind::Continue => self.eval_loop_control(LoopControl::Continue, expr.span),
            ExprKind::Return(value) => self.eval_const_return(ctx, value, depth, expr.span),
            ExprKind::FieldAccess { lhs, field } => self.eval_field_access(
                ctx,
                lhs,
                *field,
                depth,
                expr.span,
            ),
            ExprKind::IndexAccess { lhs, index } => self.eval_index_access(
                ctx,
                lhs,
                index,
                depth,
                expr.span,
            ),
            ExprKind::GenericInstantiation { .. } => {
                self.emit(DiagCode::GenericInstantiationAsValue, expr.span);
                Err(ConstEvalError)
            },
            ExprKind::TypeNode(_) => {
                self.emit(DiagCode::TypeAsValue, expr.span);
                Err(ConstEvalError)
            },
            ExprKind::Call { callee, args } => self.eval_call(ctx, callee, args, depth, expr.span),
            ExprKind::EnumLiteral(name) => self.eval_enum_literal(ctx, expr.ty, *name, depth, expr.span),
            ExprKind::Match { target, arms } => self.eval_match(ctx, target, arms, depth, expr.span),
            ExprKind::Unsupported => {
                self.emit(DiagCode::UnsupportedConstruct, expr.span);
                Err(ConstEvalError)
            },
            _ => {
                self.emit(DiagCode::InvalidConstExpr, expr.span);
                Err(ConstEvalError)
            },
        };
        match raw {
            Ok(v) => {
                assert(self.core.substs() == substs);
                self.apply_post_eval_checks(ctx, expr, v)
            },
            Err(e) => Err(e),
        }
    }

    fn eval_binary(
        &mut self,
        ctx: &SemaContext,
        lhs: &Expr,
        op: BinaryOperator,
        rhs: &Expr,
        depth: usize,
        span: Span,
    ) -> (r: Result<ConstValue, ConstEvalError>)
        requires
            ctx.wf(),
            old(self).wf(),
            depth <= MAX_CONST_DEPTH,
        ensures
            old(self).keeps(*final(self)),
            crate::eval_spec::raw_binary(ctx.types, old(self).core.substs(), *lhs, op, *rhs, depth as int) is Some
                ==> final(self).core == old(self).core,
            crate::eval_spec::raw_binary(ctx.types, old(self).core.substs(), *lhs, op, *rhs, depth as int)
                matches Some(res) ==> r == res,
            binary_arith_error(ctx.types, old(self).core.substs(), *lhs, op, *rhs, depth as int) matches Some(ae)
                ==> r is Err && final(self).diags@.len() > 0 && final(self).diags@.last() == (Diagnostic {
                code: arith_diag(ae),
                span,
            }),
        decreases 101 - depth, 1int,
    {
        let left = match self.eval_inner(ctx, lhs, depth + 1) {
            Ok(v) => v,
            Err(e) => {
                return Err(e);
            },
        };
        let right = match self.eval_inner(ctx, rhs, depth + 1) {
            Ok(v) => v,
            Err(e) => {
                return Err(e);
            },
        };
        let lhs_is_unsigned = self.expr_uses_unsigned_integer_semantics(ctx, lhs);
        let cop = match const_binary_op(op) {
            Some(c) => c,
            None => {
                return Err(self.emit_arithmetic_error(ConstArithmeticError::TypeMismatch, span));
            },
        };
        match eval_binary_values(left, cop, right, lhs_is_unsigned) {
            Ok(v) => Ok(v),
            Err(e) => Err(self.emit_arithmetic_error(e, span)),
        }
    }

    fn eval_unary(
        &mut self,
        ctx: &SemaContext,
        op: UnaryOperator,
        operand: &Expr,
        depth: usize,
        span: Span,
    ) -> (r: Result<ConstValue, ConstEvalError>)
        requires
            ctx.wf(),
            old(self).wf(),
            depth <= MAX_CONST_DEPTH,
        ensures
            old(self).keeps(*final(self)),
            crate::eval_spec::raw_unary(ctx.types, old(self).core.substs(), op, *operand, depth as int) is Some
                ==> final(self).core == old(self).core,
            crate::eval_spec::raw_unary(ctx.types, old(self).core.substs(), op, *operand, depth as int)
                matches Some(res) ==> r == res,
            op == UnaryOperator::AddressOf || op == UnaryOperator::MutAddressOf || op == UnaryOperator::PointerDeRef
                ==> r is Err && final(self).diags@ == old(self).diags@.push(
                Diagnostic { code: DiagCode::RefUnsupported, span },
            ) && final(self).core == old(self).core,
            op == UnaryOperator::MetaOf ==> (meta_sem(ctx.types, old(self).core.substs(), *operand, depth as int) matches Some(
                res,
            ) ==> r == res),
        decreases 101 - depth, 1int,
    {
        if op == UnaryOperator::Negate {
            if let ExprKind::Integer(v) = &operand.kind {
                return Ok(ConstValue::Int(int_neg(*v as i128)));
            }
        }
        match op {
            UnaryOperator::AddressOf | UnaryOperator::MutAddressOf | UnaryOperator::PointerDeRef => {
                self.emit(DiagCode::RefUnsupported, span);
                return Err(ConstEvalError);
            },
            UnaryOperator::MetaOf => {
                return self.eval_meta_of(ctx, operand, depth, span);
            },
            _ => {},
        }
        let val = match self.eval_inner(ctx, operand, depth + 1) {
            Ok(v) => v,
            Err(e) => {
                return Err(e);
            },
        };
        let is_unsigned = self.expr_uses_unsigned_integer_semantics(ctx, operand);
        match val {
            ConstValue::Int(v) => {
                if op == UnaryOperator::Negate {
                    if is_unsigned {
                        self.emit(DiagCode::UnaryMinusOnUnsigned, span);
                        return Err(ConstEvalError);
                    }
                    Ok(ConstValue::Int(int_neg(v)))
                } else if op == UnaryOperator::BitwiseNot {
                    Ok(ConstValue::Int(!v))
                } else {
                    self.emit(DiagCode::InvalidUnaryOperator, span);
                    Err(ConstEvalError)
                }
            },
            ConstValue::Bool(b) => {
                if op == UnaryOperator::LogicalNot {
                    Ok(ConstValue::Bool(!b))
                } else {
                    self.emit(DiagCode::InvalidUnaryOperator, span);
                    Err(ConstEvalError)
                }
            },
            _ => {
                self.emit(DiagCode::InvalidUnaryOperator, span);
                Err(ConstEvalError)
            },
        }
    }

    /// The length of an array type, or of a string constant of slice type.
    fn eval_meta_of(&mut self, ctx: &SemaContext, operand: &Expr, depth: usize, span: Span) -> (r:
        Result<ConstValue, ConstEvalError>)
        requires
            ctx.wf(),
            old(self).wf(),
            depth <= MAX_CONST_DEPTH,
        ensures
            old(self).keeps(*final(self)),
            meta_sem(ctx.types, old(self).core.substs(), *operand, depth as int) matches Some(res) ==> r == res,
            (ctx.types.kind(resolve_ty(ctx.types, old(self).core.substs(), operand.ty)) is Array) ==> *final(self)
                == *old(self),
            !(ctx.types.kind(resolve_ty(ctx.types, old(self).core.substs(), operand.ty)) is Array) && !(ctx.types.kind(
                resolve_ty(ctx.types, old(self).core.substs(), operand.ty),
            ) is Slice) ==> final(self).diags@ == old(self).diags@.push(
                Diagnostic { code: DiagCode::InvalidUnaryOperator, span },
            ) && final(self).core == old(self).core,
        decreases 101 - depth, 0int,
    {
        let t = self.resolved_type(ctx, operand.ty);
        match ctx.types.get(t) {
            TypeKind::Array { len, .. } => Ok(ConstValue::Int(*len as i128)),
            TypeKind::Slice { .. } => match self.eval_inner(ctx, operand, depth + 1) {
                Ok(ConstValue::Str(s)) => Ok(ConstValue::Int(s.len as i128)),
                Ok(_) => {
                    self.emit(DiagCode::SliceLenUnknown, span);
                    Err(ConstEvalError)
                },
                Err(e) => Err(e),
            },
            _ => {
                self.emit(DiagCode::InvalidUnaryOperator, span);
                Err(ConstEvalError)
            },
        }
    }

    fn eval_cast(&mut self, ctx: &SemaContext, lhs: &Expr, target: TypeId, depth: usize, span: Span) -> (r:
        Result<ConstValue, ConstEvalError>)
        requires
            ctx.wf(),
            old(self).wf(),
            depth <= MAX_CONST_DEPTH,
        ensures
            old(self).keeps(*final(self)),
            crate::eval_spec::raw_cast(ctx.types, old(self).core.substs(), *lhs, target, depth as int) is Some
                ==> final(self).core == old(self).core,
            crate::eval_spec::raw_cast(ctx.types, old(self).core.substs(), *lhs, target, depth as int)
                matches Some(res) ==> r == res,
        decreases 101 - depth, 1int,
    {
        let val = match self.eval_inner(ctx, lhs, depth + 1) {
            Ok(v) => v,
            Err(e) => {
                return Err(e);
            },
        };
        match val {
            ConstValue::Int(v) => {
                let t = self.resolved_type(ctx, target);
                match ctx.types.layout_size(t) {
                    Some(size) => {
                        if size >= 16 {
                            Ok(ConstValue::Int(v))
                        } else {
                            let u = truncate_to_width(v, size * 8);
                            proof {
                                vstd::arithmetic::power2::lemma_pow2_strictly_increases(
                                    (size * 8) as nat,
                                    127,
                                );
                                crate::arith::lemma_pow2_127();
                            }
                            Ok(ConstValue::Int(u as i128))
                        }
                    },
                    None => {
                        self.emit(DiagCode::LayoutUnknown, span);
                        Err(ConstEvalError)
                    },
                }
            },
            _ => {
                self.emit(DiagCode::OnlyIntegerCasts, span);
                Err(ConstEvalError)
            },
        }
    }

    fn eval_const_if(
        &mut self,
        ctx: &SemaContext,
        cond: &Expr,
        then_branch: &Expr,
        else_branch: &Option<Box<Expr>>,
        depth: usize,
        span: Span,
    ) -> (r: Result<ConstValue, ConstEvalError>)
        requires
            ctx.wf(),
            old(self).wf(),
            depth <= MAX_CONST_DEPTH,
        ensures
            old(self).keeps(*final(self)),
            crate::eval_spec::raw_if(ctx.types, old(self).core.substs(), *cond, *then_branch, *else_branch, depth as int)
                is Some ==> final(self).core == old(self).core,
            crate::eval_spec::raw_if(
                ctx.types,
                old(self).core.substs(),
                *cond,
                *then_branch,
                *else_branch,
                depth as int,
            ) matches Some(res) ==> r == res,
        decreases 101 - depth, 1int,
    {
        match self.eval_inner(ctx, cond, depth + 1) {
            Ok(ConstValue::Bool(true)) => self.eval_inner(ctx, then_branch, depth + 1),
            Ok(ConstValue::Bool(false)) => match else_branch {
                Some(b) => self.eval_inner(ctx, b, depth + 1),
                None => Ok(ConstValue::Void),
            },
            Ok(_) => {
                self.emit(DiagCode::IfConditionNotBool, span);
                Err(ConstEvalError)
            },
            Err(e) => Err(e),
        }
    }

    /// Evaluates each of `es` at `depth`, stopping at the first error.
    fn eval_list(&mut self, ctx: &SemaContext, es: &Vec<Expr>, depth: usize) -> (r: Result<
        Vec<ConstValue>,
        ConstEvalError,
    >)
        requires
            ctx.wf(),
            old(self).wf(),
            depth <= MAX_CONST_DEPTH + 1,
        ensures
            old(self).keeps(*final(self)),
            pure_list(ctx.types, old(self).core.substs(), es@, depth as int) is Some ==> final(self).core == old(self).core,
            pure_list(ctx.types, old(self).core.substs(), es@, depth as int) matches Some(res) ==> (
            match res {
                Ok(vs) => r matches Ok(out) && out@ == vs,
                Err(_) => r is Err,
            }),
        decreases 101 - depth, 5int,
    {
        let ghost substs = self.core.substs();
        let ghost d = self.diags@;
        let mut out: Vec<ConstValue> = Vec::new();
        let mut i: usize = 0;
        assert(es@.skip(0) =~= es@);
        while i < es.len()
            invariant
                ctx.wf(),
                self.wf(),
                self.core.substs() == substs,
                self.const_scopes@ == old(self).const_scopes@,
                d.is_prefix_of(self.diags@),
                old(self).diags@ == d,
                old(self).core.substs() == substs,
                i <= es@.len(),
                depth <= MAX_CONST_DEPTH + 1,
                pure_list(ctx.types, substs, es@, depth as int) is Some ==> pure_list(
                    ctx.types,
                    substs,
                    es@,
                    depth as int,
                ) == prepend_list(out@, pure_list(ctx.types, substs, es@.skip(i as int), depth as int)),
                pure_list(ctx.types, substs, es@, depth as int) is Some ==> self.core == old(self).core,
            decreases es@.len() - i,
        {
            let ghost rest = es@.skip(i as int);
            assert(rest.drop_first() =~= es@.skip(i + 1));
            assert(rest[0] == es@[i as int]);
            let ghost before = self.diags@;
            let res = self.eval_inner(ctx, &es[i], depth);
            proof {
                lemma_prefix_trans(d, before, self.diags@);
            }
            match res {
                Ok(v) => {
                    let ghost prev = out@;
                    out.push(v);
                    proof {
                        if pure_list(ctx.types, substs, es@, depth as int) is Some {
                            assert(pure_list(ctx.types, substs, rest, depth as int) is Some);
                            match pure_list(ctx.types, substs, es@.skip(i + 1), depth as int) {
                                Some(Ok(vs)) => {
                                    assert(prev + (seq![v] + vs) =~= out@ + vs);
                                },
                                _ => {},
                            }
                        }
                    }
                },
                Err(e) => {
                    return Err(e);
                },
            }
            i = i + 1;
        }
        assert(es@.skip(i as int).len() == 0);
        assert(out@ + Seq::<ConstValue>::empty() =~= out@);
        Ok(out)
    }

    /// Evaluates `expr` at `depth` as a usize-like constant.
    fn eval_usize_at(&mut self, ctx: &SemaContext, expr: &Expr, depth: usize) -> (r: Result<
        u64,
        ConstEvalError,
    >)
        requires
            ctx.wf(),
            old(self).wf(),
        ensures
            old(self).keeps(*final(self)),
            pure_sem(ctx.types, old(self).core.substs(), *expr, depth as int) is Some ==> final(self).core == old(self).core,
            pure_sem(ctx.types, old(self).core.substs(), *expr, depth as int) matches Some(res)
                ==> r == usize_of(res),
            exists|mid: ConstEvaluator, v: Result<ConstValue, ConstEvalError>|
                #[trigger] old(self).evaluates(mid, *ctx, *expr, depth as int, v) && usize_step(
                    mid,
                    *final(self),
                    v,
                    expr.span,
                    r,
                ),
        decreases 101 - depth, 5int,
    {
        let ghost s0 = *self;
        let inner = self.eval_inner(ctx, expr, depth);
        let ghost s1 = *self;
        proof {
            assert(s0.evaluates(s1, *ctx, *expr, depth as int, inner));
        }
        match inner {
            Ok(ConstValue::Int(v)) => {
                if v < 0 {
                    self.emit(DiagCode::NegativeForUsize, expr.span);
                    Err(ConstEvalError)
                } else if v > 0xffff_ffff_ffff_ffffi128 {
                    self.emit(DiagCode::TooLargeForUsize, expr.span);
                    Err(ConstEvalError)
                } else {
                    Ok(v as u64)
                }
            },
            Ok(_) => {
                self.emit(DiagCode::ExpectedIntegerConstant, expr.span);
                Err(ConstEvalError)
            },
            Err(e) => Err(e),
        }
    }

    fn eval_data_init(
        &mut self,
        ctx: &SemaContext,
        literal: &DataLiteral,
        target: TypeId,
        depth: usize,
        span: Span,
    ) -> (r: Result<ConstValue, ConstEvalError>)
        requires
            ctx.wf(),
            old(self).wf(),
            depth <= MAX_CONST_DEPTH,
        ensures
            old(self).keeps(*final(self)),
            crate::eval_spec::raw_data_init(ctx.types, old(self).core.substs(), *literal, target, depth as int)
                is Some ==> final(self).core == old(self).core,
            crate::eval_spec::raw_data_init(
                ctx.types,
                old(self).core.substs(),
                *literal,
                target,
                depth as int,
            ) matches Some(res) ==> r == res,
        decreases 101 - depth, 3int,
    {
        let t = self.resolved_type(ctx, target);
        if let TypeKind::Enum(d, _) = ctx.types.get(t) {
            return self.eval_named_enum_data_init(ctx, *d, literal, depth, span);
        }
        match literal {
            DataLiteral::Scalar(inner) => self.eval_inner(ctx, inner, depth + 1),
            DataLiteral::Array(elems) => match self.eval_list(ctx, elems, depth + 1) {
                Ok(vs) => {
                    let vals = Values::from_vec(vs);
                    proof {
                        crate::eval_spec::lemma_seq_values_of(vals);
                    }
                    Ok(ConstValue::Array(vals))
                },
                Err(e) => Err(e),
            },
            DataLiteral::Struct(fields) => {
                let ghost substs = self.core.substs();
                let ghost d = self.diags@;
                let mut acc = Fields::Nil;
                let mut i: usize = 0;
                while i < fields.len()
                    invariant
                        ctx.wf(),
                        self.wf(),
                        self.core.substs() == substs,
                        self.const_scopes@ == old(self).const_scopes@,
                        d.is_prefix_of(self.diags@),
                        old(self).diags@ == d,
                        old(self).core.substs() == substs,
                        depth <= MAX_CONST_DEPTH,
                        crate::eval_spec::raw_data_init(ctx.types, substs, *literal, target, depth as int) is None,
                    decreases fields@.len() - i,
                {
                    let ghost before = self.diags@;
                    let res = self.eval_inner(ctx, &fields[i].value, depth + 1);
                    proof {
                        lemma_prefix_trans(d, before, self.diags@);
                    }
                    match res {
                        Ok(v) => {
                            acc = acc.insert(fields[i].name, v);
                        },
                        Err(e) => {
                            return Err(e);
                        },
                    }
                    i = i + 1;
                }
                Ok(ConstValue::Struct(acc))
            },
            DataLiteral::Repeat { value, count } => {
                let v = match self.eval_inner(ctx, value, depth + 1) {
                    Ok(v) => v,
                    Err(e) => {
                        return Err(e);
                    },
                };
                match self.eval_usize_at(ctx, count, depth + 1) {
                    Ok(n) => Ok(ConstValue::Array(Values::repeat(&v, n))),
                    Err(e) => Err(e),
                }
            },
        }
    }
}


/// The length of a string constant, where `res` is one.
pub open spec fn str_len_of(res: Result<ConstValue, ConstEvalError>) -> Result<ConstValue, ConstEvalError> {
    match res {
        Ok(ConstValue::Str(s)) => Ok(ConstValue::Int(s.len as i128)),
        Ok(_) => Err(ConstEvalError),
        Err(e) => Err(e),
    }
}

/// The value of `@len(operand)` at `depth`, where it is determined: the
/// length of an array type, or of a string constant of slice type.
pub open spec fn meta_sem(
    types: TypeRegistry,
    substs: Seq<Seq<(SymbolId, GenericArg)>>,
    operand: Expr,
    depth: int,
) -> Option<Result<ConstValue, ConstEvalError>> {
    match types.kind(resolve_ty(types, substs, operand.ty)) {
        TypeKind::Array { len, .. } => Some(Ok(ConstValue::Int(len as i128))),
        TypeKind::Slice { .. } => match pure_sem(types, substs, operand, depth + 1) {
            Some(res) => Some(str_len_of(res)),
            None => None,
        },
        _ => Some(Err(ConstEvalError)),
    }
}

/// The value of a block with no statements, where it is determined: its
/// tail expression one level deeper, or `void` without one.
pub open spec fn tail_sem(
    types: TypeRegistry,
    substs: Seq<Seq<(SymbolId, GenericArg)>>,
    result: Option<Box<Expr>>,
    depth: int,
) -> Option<Result<ConstValue, ConstEvalError>> {
    match result {
        Some(e) => pure_sem(types, substs, *e, depth + 1),
        None => Some(Ok(ConstValue::Void)),
    }
}

/// How a constant `while` loop ends when its condition evaluates to `c`
/// the first time: at once with `void` for `false`, with an error for an
/// error or a value that is no `bool`; `None` where the body runs.
pub open spec fn while_exit(c: Result<ConstValue, ConstEvalError>) -> Option<Result<ConstValue, ConstEvalError>> {
    match c {
        Ok(ConstValue::Bool(true)) => None,
        Ok(ConstValue::Bool(false)) => Some(Ok(ConstValue::Void)),
        _ => Some(Err(ConstEvalError)),
    }
}

/// `void` for a value, the error for an error.
pub open spec fn void_of(res: Result<ConstValue, ConstEvalError>) -> Result<ConstValue, ConstEvalError> {
    match res {
        Ok(_) => Ok(ConstValue::Void),
        Err(e) => Err(e),
    }
}

/// The value a `return` hands back, where it is determined: its operand one
/// level deeper, or `void` without one.
pub open spec fn return_sem(
    types: TypeRegistry,
    substs: Seq<Seq<(SymbolId, GenericArg)>>,
    value: Option<Box<Expr>>,
    depth: int,
) -> Option<Result<ConstValue, ConstEvalError>> {
    match value {
        Some(e) => pure_sem(types, substs, *e, depth + 1),
        None => Some(Ok(ConstValue::Void)),
    }
}

impl ConstEvaluator {
    /// The scope of the local that an assignment to `name` writes: the
    /// innermost scope binding it, where it is bound mutable; otherwise the
    /// diagnostic the assignment is refused with.
    pub open spec fn assign_target(self, name: SymbolId) -> Result<int, DiagCode> {
        match slot_of(self.core.values(), name, self.core.values().len() as int) {
            None => Err(DiagCode::AssignNotLocal),
            Some(i) => match find_entry(self.core.mutability()[i], name) {
                Some(true) => match find_entry(self.core.values()[i], name) {
                    Some(_) => Ok(i),
                    None => Err(DiagCode::AssignNotLocal),
                },
                Some(false) => Err(DiagCode::AssignImmutable),
                None => Err(DiagCode::AssignNotLocal),
            },
        }
    }
}

impl ConstEvaluator {
    /// What an assignment with `op` to the local `name` of scope `i` gives,
    /// where its right-hand side evaluates to `rhs`: an error for an error of
    /// either operand, and otherwise `void`, with the local holding the
    /// combined value.
    pub open spec fn assigned_local(
        self,
        after: Self,
        r: Result<ConstValue, ConstEvalError>,
        i: int,
        name: SymbolId,
        op: AssignmentOperator,
        rhs: Option<Result<ConstValue, ConstEvalError>>,
    ) -> bool {
        match rhs {
            Some(Ok(v)) => match compound_spec(find_entry(self.core.values()[i], name)->0, op, v) {
                Ok(next) => (r matches Ok(ConstValue::Void)) && i < after.core.values().len() && find_entry(
                    after.core.values()[i],
                    name,
                ) == Some(next),
                Err(_) => r is Err,
            },
            Some(Err(_)) => r is Err,
            None => true,
        }
    }
}

/// The value of `lhs.field` at `depth`, where it is determined: a constant
/// definition of the module that `lhs` names, or the field of the struct
/// constant that `lhs` evaluates to.
pub open spec fn field_sem(
    ctx: SemaContext,
    substs: Seq<Seq<(SymbolId, GenericArg)>>,
    lhs: Expr,
    field: SymbolId,
    depth: int,
) -> Option<Result<ConstValue, ConstEvalError>> {
    match ctx.types.kind(resolve_ty(ctx.types, substs, lhs.ty)) {
        TypeKind::Module(m) => if m < ctx.defs@.len() {
            match ctx.defs@[m as int] {
                Def::Module { scope_id, .. } => match ctx.declared_in(scope_id, field) {
                    Some(info) => match info.kind {
                        SymbolKind::Const => match info.def_id {
                            Some(def) => const_def_sem(ctx, substs, def, depth),
                            None => Some(Err(ConstEvalError)),
                        },
                        _ => Some(Err(ConstEvalError)),
                    },
                    None => Some(Err(ConstEvalError)),
                },
                _ => Some(Err(ConstEvalError)),
            }
        } else {
            Some(Err(ConstEvalError))
        },
        _ => match pure_sem(ctx.types, substs, lhs, depth + 1) {
            Some(Ok(ConstValue::Struct(fields))) => match fields.lookup(field) {
                Some(v) => Some(Ok(v)),
                None => Some(Err(ConstEvalError)),
            },
            Some(Ok(_)) => Some(Err(ConstEvalError)),
            Some(Err(e)) => Some(Err(e)),
            None => None,
        },
    }
}

/// The value of `lhs[index]` at `depth`, where it is determined: the element
/// of the array constant `lhs` at the usize constant `index`.
pub open spec fn index_sem(
    types: TypeRegistry,
    substs: Seq<Seq<(SymbolId, GenericArg)>>,
    lhs: Expr,
    index: Expr,
    depth: int,
) -> Option<Result<ConstValue, ConstEvalError>> {
    match pure_sem(types, substs, lhs, depth + 1) {
        Some(Err(e)) => Some(Err(e)),
        Some(Ok(base)) => match pure_sem(types, substs, index, depth + 1) {
            Some(ir) => match usize_of(ir) {
                Err(e) => Some(Err(e)),
                Ok(i) => match base {
                    ConstValue::Array(items) => if i <= usize::MAX && i < items.seq().len() {
                        Some(Ok(items.seq()[i as int]))
                    } else {
                        Some(Err(ConstEvalError))
                    },
                    _ => Some(Err(ConstEvalError)),
                },
            },
            None => None,
        },
        None => None,
    }
}

/// A type a bit intrinsic works on: an integer, or a vector of integers.
pub open spec fn bit_target_ok(types: TypeRegistry, n: TypeId) -> bool {
    types.is_int_ty(n) || (types.simd_of(n) matches Some((e, _)) && types.is_int_ty(e))
}

impl ConstEvaluator {
    /// What a call of the compiler intrinsic `k` with the generic arguments
    /// `gargs`, of the `n_generics` it declares, gives and reports.
    pub open spec fn intrinsic_call_ok(
        self,
        after: Self,
        ctx: SemaContext,
        k: Intrinsic,
        gargs: Seq<TypeId>,
        n_generics: int,
        span: Span,
        r: Result<ConstValue, ConstEvalError>,
    ) -> bool {
        &&& (gargs.len() != n_generics ==> r is Err && after.diags@ == self.diags@.push(
                Diagnostic { code: DiagCode::IntrinsicNeedsGenericArgs, span },
            ))
        &&& (gargs.len() == n_generics ==> match k {
                Intrinsic::SizeOf => gargs.len() > 0 ==> match ctx.types.size_of(
                    resolve_ty(ctx.types, self.core.substs(), gargs[0]),
                ) {
                    Some(size) => r == Ok::<ConstValue, ConstEvalError>(ConstValue::Int(size as i128))
                        && after.diags == self.diags,
                    None => r is Err && after.diags@ == self.diags@.push(
                        Diagnostic { code: DiagCode::LayoutUnknown, span },
                    ),
                },
                Intrinsic::PopCount | Intrinsic::Clz | Intrinsic::Ctz | Intrinsic::Bswap | Intrinsic::IntCast => r matches Ok(
                    v,
                ) ==> v is Int,
                Intrinsic::Memcpy | Intrinsic::Memmove | Intrinsic::Memset => r is Err && after.diags@
                    == self.diags@.push(Diagnostic { code: DiagCode::MemoryIntrinsicNotConst, span }),
                _ => r is Err && after.diags@ == self.diags@.push(
                    Diagnostic { code: DiagCode::IntrinsicNotConst, span },
                ),
            })
    }
}

/// Why a call of `def` with `n_gargs` generic and `n_args` value arguments
/// is refused before its body runs: `Some(None)` where `def` is no function,
/// `Some(Some(c))` with the diagnostic `c` for a wrong number of generic or
/// value arguments, an external function, or a non-`const` one where such
/// calls are not allowed; `None` where the call goes ahead.
pub open spec fn invoke_refusal(ctx: SemaContext, def: DefId, n_gargs: int, n_args: int, allow: bool) -> Option<
    Option<DiagCode>,
> {
    if def < ctx.defs@.len() {
        match ctx.defs@[def as int] {
            Def::Function(f) => if f.generics@.len() != 0 && n_gargs != f.generics@.len() {
                Some(Some(DiagCode::GenericArgsUnresolved))
            } else if n_args != f.params@.len() {
                Some(Some(DiagCode::ArgCountMismatch))
            } else if f.is_extern {
                Some(Some(DiagCode::ExternConstFnUnsupported))
            } else if !f.is_const && !allow {
                Some(Some(DiagCode::OnlyConstFnCallable))
            } else {
                None
            },
            _ => Some(None),
        }
    } else {
        Some(None)
    }
}

/// The substitution a call installs for the generic parameters `g` bound
/// to `a`, the last parameter first.
pub open spec fn call_generic_map(g: Seq<SymbolId>, a: Seq<GenericArg>) -> Seq<(SymbolId, GenericArg)> {
    Seq::new(g.len(), |i: int| (g[g.len() - 1 - i], a[g.len() - 1 - i]))
}

/// How the body of the function `def`, called with the generic arguments
/// `gargs`, evaluates one level below `depth`, where that is determined: a
/// side-effect-free body under the substitutions in force and, for a generic
/// function, its own parameters bound; an error for a function without a body.
pub open spec fn fn_body_sem(
    ctx: SemaContext,
    substs: Seq<Seq<(SymbolId, GenericArg)>>,
    def: DefId,
    gargs: Seq<GenericArg>,
    depth: int,
) -> Option<Result<ConstValue, ConstEvalError>> {
    if def < ctx.defs@.len() {
        match ctx.defs@[def as int] {
            Def::Function(f) => match f.body {
                Some(b) => if f.generics@.len() == 0 {
                    pure_sem(ctx.types, substs, b, depth + 1)
                } else {
                    pure_sem(ctx.types, substs.push(call_generic_map(f.generics@, gargs)), b, depth + 1)
                },
                None => Some(Err(ConstEvalError)),
            },
            _ => None,
        }
    } else {
        None
    }
}

impl ConstEvaluator {
    /// What a call of the function `def` gives and leaves behind: a refused
    /// call reports why and changes nothing else; a call that runs restores
    /// the evaluator's function, loop and return state, and gives the value
    /// of its body.
    pub open spec fn invoked(
        self,
        after: Self,
        ctx: SemaContext,
        def: DefId,
        gargs: Seq<GenericArg>,
        n_args: int,
        depth: int,
        span: Span,
        r: Result<ConstValue, ConstEvalError>,
    ) -> bool {
        &&& after.core.functions() == self.core.functions()
        &&& after.core.loops() == self.core.loops()
        &&& after.core.control() == self.core.control()
        &&& after.core.returned() == self.core.returned()
        &&& match invoke_refusal(ctx, def, gargs.len() as int, n_args, self.core.non_const_calls()) {
            Some(None) => r is Err && after == self,
            Some(Some(c)) => r is Err && after.diags@ == self.diags@.push(Diagnostic { code: c, span })
                && after.core == self.core,
            None => self.core.functions() < usize::MAX ==> (fn_body_sem(ctx, self.core.substs(), def, gargs, depth)
                matches Some(res) ==> r == res),
        }
    }
}

impl ConstEvaluator {
    /// What a call through a callee of function type `FnDef(def, gargs)`
    /// gives: for a compiler intrinsic what the intrinsic gives; for a user
    /// function called with the wrong number of arguments an error; for what
    /// is no function an error with nothing changed.
    pub open spec fn call_outcome(
        self,
        after: Self,
        ctx: SemaContext,
        def: DefId,
        gargs: Seq<TypeId>,
        is_method: bool,
        n_args: int,
        span: Span,
        r: Result<ConstValue, ConstEvalError>,
    ) -> bool {
        if def < ctx.defs@.len() {
            match ctx.defs@[def as int] {
                Def::Function(f) => match f.intrinsic {
                    Some(k) => self.intrinsic_call_ok(after, ctx, k, gargs, f.generics@.len() as int, span, r),
                    None => !is_method && n_args != f.params@.len() ==> r is Err,
                },
                _ => r is Err && after == self,
            }
        } else {
            r is Err && after == self
        }
    }
}

impl ConstEvaluator {
    /// What the literal `.name` of the type `ty` gives: the number of that
    /// variant of a payload-free enum, which counts from zero while no
    /// variant up to it has an explicit value; an error, reported, for a
    /// type that is no enum, an enum with payloads, or an unknown variant.
    pub open spec fn enum_literal_outcome(
        self,
        after: Self,
        ctx: SemaContext,
        ty: TypeId,
        name: SymbolId,
        span: Span,
        r: Result<ConstValue, ConstEvalError>,
    ) -> bool {
        match ctx.types.kind(resolve_ty(ctx.types, self.core.substs(), ty)) {
            TypeKind::Enum(d, _) => match enum_variants(ctx, d) {
                None => r is Err && after == self,
                Some(vs) => if !payload_free(vs) {
                    r is Err && after.diags@ == self.diags@.push(
                        Diagnostic { code: DiagCode::PayloadVariantAsInteger, span },
                    ) && after.core == self.core
                } else {
                    match variant_index(vs, name) {
                        None => r is Err && after.diags@.last() == (Diagnostic { code: DiagCode::VariantNotFound, span }),
                        Some(i) => r matches Ok(ConstValue::Int(t)) && (implicit_upto(vs, i) ==> t == i),
                    }
                },
            },
            _ => r is Err && after.diags@ == self.diags@.push(
                Diagnostic { code: DiagCode::VariantLiteralUnresolved, span },
            ) && after.core == self.core,
        }
    }
}

/// The bindings a value makes when matched against the variant whose tag is
/// `expected`: its payload bound to `binding` where both exist; `None` where
/// it is another variant or no enum value.
pub open spec fn variant_match(expected: i128, binding: Option<SymbolId>, v: ConstValue) -> Option<
    Seq<(SymbolId, ConstValue)>,
> {
    match v {
        ConstValue::Enum { tag, payload } => if tag == expected {
            match (binding, payload) {
                (Some(b), Some(p)) => Some(seq![(b, *p)]),
                _ => Some(Seq::empty()),
            }
        } else {
            None
        },
        ConstValue::Int(tag) => if tag == expected {
            Some(Seq::empty())
        } else {
            None
        },
        _ => None,
    }
}

/// `r` is the outcome `m` of a match: the bindings where it matched.
pub open spec fn bindings_are(
    r: Result<Option<Vec<(SymbolId, ConstValue)>>, ConstEvalError>,
    m: Result<Option<Seq<(SymbolId, ConstValue)>>, ConstEvalError>,
) -> bool {
    match (r, m) {
        (Ok(Some(b)), Ok(Some(s))) => b@ == s,
        (Ok(None), Ok(None)) => true,
        (Err(_), Err(_)) => true,
        _ => false,
    }
}

/// A match that succeeds without bindings where `hit` holds.
pub open spec fn plain_hit(hit: bool) -> Result<Option<Seq<(SymbolId, ConstValue)>>, ConstEvalError> {
    if hit {
        Ok(Some(Seq::empty()))
    } else {
        Ok(None)
    }
}

/// How the pattern `pattern` matches the value `v`, where that is determined
/// (variant patterns aside): a value pattern by equality with the constant it
/// evaluates to, a range by the integer bounds it evaluates to, a binding by
/// binding the value, a wildcard always; a destructuring pattern is refused.
pub open spec fn pattern_sem(
    types: TypeRegistry,
    substs: Seq<Seq<(SymbolId, GenericArg)>>,
    pattern: MatchPattern,
    v: ConstValue,
    depth: int,
) -> Option<Result<Option<Seq<(SymbolId, ConstValue)>>, ConstEvalError>> {
    match pattern {
        MatchPattern::Value(e) => if depth + 1 > MAX_CONST_DEPTH {
            Some(Err(ConstEvalError))
        } else {
            match pure_sem(types, substs, e, depth + 1) {
                Some(Ok(x)) => Some(plain_hit(x == v)),
                Some(Err(_)) => Some(Err(ConstEvalError)),
                None => None,
            }
        },
        MatchPattern::Range { start, end, inclusive } => if depth + 1 > MAX_CONST_DEPTH {
            Some(Err(ConstEvalError))
        } else {
            match (pure_sem(types, substs, start, depth + 1), pure_sem(types, substs, end, depth + 1)) {
                (Some(Err(_)), _) => Some(Err(ConstEvalError)),
                (Some(Ok(_)), Some(Err(_))) => Some(Err(ConstEvalError)),
                (Some(Ok(lo)), Some(Ok(hi))) => Some(
                    plain_hit(
                        match (v, lo, hi) {
                            (ConstValue::Int(t), ConstValue::Int(a), ConstValue::Int(b)) => a <= t && (if inclusive {
                                t <= b
                            } else {
                                t < b
                            }),
                            _ => false,
                        },
                    ),
                ),
                _ => None,
            }
        },
        MatchPattern::Pattern(Pattern::Binding { name, .. }) => Some(Ok(Some(seq![(name, v)]))),
        MatchPattern::Pattern(Pattern::Ignore) => Some(Ok(Some(Seq::empty()))),
        MatchPattern::Pattern(Pattern::Destructure(_)) => Some(Err(ConstEvalError)),
        MatchPattern::CatchAll => Some(Ok(Some(Seq::empty()))),
        _ => None,
    }
}

impl ConstEvaluator {
    /// The tag of the variant `name` of the enum type `target_ty`: counting
    /// from zero while no variant up to it has an explicit value; `None` for a
    /// type that is no enum; an error for an unknown variant.
    pub open spec fn variant_tag_outcome(
        self,
        after: Self,
        ctx: SemaContext,
        target_ty: TypeId,
        name: SymbolId,
        span: Span,
        r: Result<Option<i128>, ConstEvalError>,
    ) -> bool {
        match ctx.types.kind(known_ty(ctx.types, target_ty)) {
            TypeKind::Enum(d, _) => match enum_variants(ctx, d) {
                None => r is Err && after == self,
                Some(vs) => match variant_index(vs, name) {
                    None => r is Err && after.diags@.last() == (Diagnostic { code: DiagCode::VariantNotFound, span }),
                    Some(i) => r matches Ok(Some(t)) && (implicit_upto(vs, i) ==> t == i),
                },
            },
            _ => r matches Ok(None) && after == self,
        }
    }

    /// How a value matches the variant pattern `name` of the enum type
    /// `target_ty`: no match for a type that is no enum, an error for an
    /// unknown variant, and, where the tags count from zero, the bindings of
    /// `variant_match`.
    pub open spec fn variant_pattern_outcome(
        self,
        after: Self,
        ctx: SemaContext,
        target_ty: TypeId,
        name: SymbolId,
        binding: Option<SymbolId>,
        v: ConstValue,
        r: Result<Option<Vec<(SymbolId, ConstValue)>>, ConstEvalError>,
    ) -> bool {
        match ctx.types.kind(known_ty(ctx.types, target_ty)) {
            TypeKind::Enum(d, _) => match enum_variants(ctx, d) {
                None => r is Err && after == self,
                Some(vs) => match variant_index(vs, name) {
                    None => r is Err,
                    Some(i) => r is Ok && (implicit_upto(vs, i) ==> bindings_are(
                        r,
                        Ok(variant_match(i as i128, binding, v)),
                    )),
                },
            },
            _ => r matches Ok(None) && after == self,
        }
    }
}

/// The first pattern of the first arm matches every value: a wildcard or a
/// binding.
pub open spec fn first_arm_irrefutable(arms: Seq<MatchArm>) -> bool {
    &&& arms.len() > 0
    &&& arms[0].patterns@.len() > 0
    &&& match arms[0].patterns@[0] {
        MatchPattern::CatchAll => true,
        MatchPattern::Pattern(Pattern::Ignore) => true,
        MatchPattern::Pattern(Pattern::Binding { .. }) => true,
        _ => false,
    }
}

/// The result of `let pattern = init` (with or without `else`) at `depth`,
/// where it is determined: an error of the initializer, `void` for a binding
/// or wildcard without `else`, an error for a binding or wildcard with
/// `else`, a variant pattern without `else` or a destructuring pattern.
pub open spec fn let_sem(
    types: TypeRegistry,
    substs: Seq<Seq<(SymbolId, GenericArg)>>,
    pattern: Pattern,
    init: Expr,
    has_else: bool,
    depth: int,
) -> Option<Result<ConstValue, ConstEvalError>> {
    match pure_sem(types, substs, init, depth + 1) {
        Some(Err(e)) => Some(Err(e)),
        Some(Ok(_)) => match pattern {
            Pattern::Binding { .. } | Pattern::Ignore => if has_else {
                Some(Err(ConstEvalError))
            } else {
                Some(Ok(ConstValue::Void))
            },
            Pattern::Variant { .. } => if has_else {
                None
            } else {
                Some(Err(ConstEvalError))
            },
            Pattern::Destructure(_) => Some(Err(ConstEvalError)),
        },
        None => None,
    }
}

/// The outcome `r` of a step before the post-evaluation checks, with those
/// checks applied to a value.
pub open spec fn post_raw(
    types: TypeRegistry,
    substs: Seq<Seq<(SymbolId, GenericArg)>>,
    e: Expr,
    raw: Result<ConstValue, ConstEvalError>,
) -> Result<ConstValue, ConstEvalError> {
    match raw {
        Ok(v) => post_check(types, resolve_ty(types, substs, e.ty), e, v),
        Err(x) => Err(x),
    }
}

impl ConstEvaluator {
    /// The result of an assignment at `depth`, where it is determined.
    pub open spec fn assign_sem(self, types: TypeRegistry, lhs: Expr, op: AssignmentOperator, rhs: Expr, depth: int) -> Option<
        Result<ConstValue, ConstEvalError>,
    > {
        let substs = self.core.substs();
        match lhs.kind {
            ExprKind::Infer => if op == AssignmentOperator::Assign {
                match pure_sem(types, substs, rhs, depth + 1) {
                    Some(res) => Some(void_of(res)),
                    None => None,
                }
            } else {
                Some(Err(ConstEvalError))
            },
            ExprKind::Identifier(name) => match self.assign_target(name) {
                Err(_) => Some(Err(ConstEvalError)),
                Ok(i) => match pure_sem(types, substs, rhs, depth + 1) {
                    Some(Ok(v)) => match compound_spec(find_entry(self.core.values()[i], name)->0, op, v) {
                        Ok(_) => Some(Ok(ConstValue::Void)),
                        Err(x) => Some(Err(x)),
                    },
                    Some(Err(x)) => Some(Err(x)),
                    None => None,
                },
            },
            _ => Some(Err(ConstEvalError)),
        }
    }

    /// The result, before the post-evaluation checks, of the forms that read
    /// or write evaluator state, at `depth` within the limit, where it is
    /// determined by the state and the side-effect-free parts of the form.
    pub open spec fn stateful_sem(self, ctx: SemaContext, e: Expr, depth: int) -> Option<
        Result<ConstValue, ConstEvalError>,
    > {
        let types = ctx.types;
        let substs = self.core.substs();
        match e.kind {
            ExprKind::Identifier(name) => self.identifier_sem(ctx, name, depth),
            ExprKind::Unary { op, operand } => if op == UnaryOperator::MetaOf {
                meta_sem(types, substs, *operand, depth)
            } else if op == UnaryOperator::AddressOf || op == UnaryOperator::MutAddressOf || op
                == UnaryOperator::PointerDeRef {
                Some(Err(ConstEvalError))
            } else {
                None
            },
            ExprKind::Block { stmts, result } => if stmts@.len() == 0 {
                tail_sem(types, substs, result, depth)
            } else {
                match pure_sem(types, substs, stmts@[0], depth + 1) {
                    Some(Err(x)) => Some(Err(x)),
                    _ => None,
                }
            },
            ExprKind::Let { pattern, init, else_clause } => let_sem(types, substs, pattern, *init, else_clause is Some, depth),
            ExprKind::While { cond, .. } => match pure_sem(types, substs, *cond, depth + 1) {
                Some(c) => while_exit(c),
                None => None,
            },
            ExprKind::Assign { lhs, op, rhs } => self.assign_sem(types, *lhs, op, *rhs, depth),
            ExprKind::Break | ExprKind::Continue => if self.core.loops() > 0 {
                Some(Ok(ConstValue::Void))
            } else {
                Some(Err(ConstEvalError))
            },
            ExprKind::Return(value) => if self.core.functions() == 0 {
                Some(Err(ConstEvalError))
            } else {
                match return_sem(types, substs, value, depth) {
                    Some(Ok(_)) => Some(Ok(ConstValue::Void)),
                    Some(Err(x)) => Some(Err(x)),
                    None => None,
                }
            },
            ExprKind::FieldAccess { lhs, field } => field_sem(ctx, substs, *lhs, field, depth),
            ExprKind::IndexAccess { lhs, index } => index_sem(types, substs, *lhs, *index, depth),
            ExprKind::GenericInstantiation { .. } | ExprKind::TypeNode(_) | ExprKind::Unsupported
            | ExprKind::Infer | ExprKind::SelfValue => Some(Err(ConstEvalError)),
            ExprKind::Call { callee, .. } => match types.kind(resolve_ty(types, substs, callee.ty)) {
                TypeKind::FnDef(d, _) => if d < ctx.defs@.len() && ctx.defs@[d as int] is Function {
                    None
                } else {
                    Some(Err(ConstEvalError))
                },
                _ => Some(Err(ConstEvalError)),
            },
            ExprKind::EnumLiteral(name) => match types.kind(resolve_ty(types, substs, e.ty)) {
                TypeKind::Enum(d, _) => match enum_variants(ctx, d) {
                    None => Some(Err(ConstEvalError)),
                    Some(vs) => if !payload_free(vs) {
                        Some(Err(ConstEvalError))
                    } else {
                        match variant_index(vs, name) {
                            None => Some(Err(ConstEvalError)),
                            Some(i) => if implicit_upto(vs, i) {
                                Some(Ok(ConstValue::Int(i as i128)))
                            } else {
                                None
                            },
                        }
                    },
                },
                _ => Some(Err(ConstEvalError)),
            },
            ExprKind::Match { target, arms } => match pure_sem(types, substs, *target, depth + 1) {
                Some(Err(x)) => Some(Err(x)),
                Some(Ok(_)) => if arms@.len() == 0 {
                    Some(Err(ConstEvalError))
                } else if first_arm_irrefutable(arms@) {
                    pure_sem(types, substs, arms@[0].body, depth + 1)
                } else {
                    None
                },
                None => None,
            },
            _ => None,
        }
    }
}

impl ConstEvaluator {
    /// What evaluating `e` at `depth` gives and leaves behind, as `eval_inner`
    /// states it.
    pub open spec fn evaluates(
        self,
        after: Self,
        ctx: SemaContext,
        e: Expr,
        depth: int,
        r: Result<ConstValue, ConstEvalError>,
    ) -> bool {
        &&& self.keeps(after)
        &&& pure_sem(ctx.types, self.core.substs(), e, depth) is Some ==> after.core == self.core
        &&& depth > MAX_CONST_DEPTH ==> r is Err && after.diags@ == self.diags@.push(
            Diagnostic { code: DiagCode::ConstDepthExceeded, span: e.span },
        ) && after.core == self.core
        &&& pure_sem(ctx.types, self.core.substs(), e, depth) matches Some(res) ==> r == res
        &&& depth <= MAX_CONST_DEPTH ==> (self.stateful_sem(ctx, e, depth) matches Some(raw) ==> r == post_raw(
            ctx.types,
            self.core.substs(),
            e,
            raw,
        ))
    }
}

/// What turning the evaluation outcome `v` of `e` into a usize-like constant
/// gives, from the state `mid` after the evaluation to `after`: the value of
/// a non-negative integer of at most 64 bits; an error with one diagnostic at
/// `e` for a negative, too large or non-integer value; an error of the
/// evaluation passed on with nothing more reported.
pub open spec fn usize_step(
    mid: ConstEvaluator,
    after: ConstEvaluator,
    v: Result<ConstValue, ConstEvalError>,
    span: Span,
    r: Result<u64, ConstEvalError>,
) -> bool {
    match v {
        Ok(ConstValue::Int(x)) => if x < 0 {
            r is Err && after.diags@ == mid.diags@.push(Diagnostic { code: DiagCode::NegativeForUsize, span })
                && after.core == mid.core && after.const_scopes == mid.const_scopes
        } else if x > u64::MAX {
            r is Err && after.diags@ == mid.diags@.push(Diagnostic { code: DiagCode::TooLargeForUsize, span })
                && after.core == mid.core && after.const_scopes == mid.const_scopes
        } else {
            r == Ok::<u64, ConstEvalError>(x as u64) && after == mid
        },
        Ok(_) => r is Err && after.diags@ == mid.diags@.push(
            Diagnostic { code: DiagCode::ExpectedIntegerConstant, span },
        ) && after.core == mid.core && after.const_scopes == mid.const_scopes,
        Err(e) => r == Err::<u64, ConstEvalError>(e) && after == mid,
    }
}

/// The integer constant that the evaluation outcome `v` gives, as
/// `usize_step` does for a usize.
pub open spec fn int_step(
    mid: ConstEvaluator,
    after: ConstEvaluator,
    v: Result<ConstValue, ConstEvalError>,
    span: Span,
    r: Result<i128, ConstEvalError>,
) -> bool {
    match v {
        Ok(ConstValue::Int(x)) => r == Ok::<i128, ConstEvalError>(x) && after == mid,
        Ok(_) => r is Err && after.diags@ == mid.diags@.push(
            Diagnostic { code: DiagCode::ExpectedIntegerConstant, span },
        ) && after.core == mid.core && after.const_scopes == mid.const_scopes,
        Err(e) => r == Err::<i128, ConstEvalError>(e) && after == mid,
    }
}

/// The arithmetic error a binary operator meets on the side-effect-free
/// operands `lhs` and `rhs` evaluated one level below `depth`, if any.
pub open spec fn binary_arith_error(
    types: TypeRegistry,
    substs: Seq<Seq<(SymbolId, GenericArg)>>,
    lhs: Expr,
    op: BinaryOperator,
    rhs: Expr,
    depth: int,
) -> Option<ConstArithmeticError> {
    match (pure_sem(types, substs, lhs, depth + 1), pure_sem(types, substs, rhs, depth + 1)) {
        (Some(Ok(l)), Some(Ok(r))) => match crate::value::binary_spec(
            l,
            const_binary_op_spec(op),
            r,
            unsigned_prim(types, resolve_ty(types, substs, lhs.ty)),
        ) {
            Err(e) => Some(e),
            Ok(_) => None,
        },
        _ => None,
    }
}

/// The constant a const generic argument gives a name, where it is bound to a
/// value.
pub open spec fn const_arg_value(a: Option<GenericArg>) -> Option<ConstValue> {
    match a {
        Some(GenericArg::Const(ConstGeneric::Value { value, .. })) => match value {
            ConstGenericValue::Int(v) => Some(ConstValue::Int(v)),
            ConstGenericValue::Bool(b) => Some(ConstValue::Bool(b)),
        },
        _ => None,
    }
}

/// The value of the constant definition `def` evaluated at `depth`, where it
/// is determined: the evaluation of its initializer one level deeper, or an
/// error for what is no constant definition.
pub open spec fn const_def_sem(
    ctx: SemaContext,
    substs: Seq<Seq<(SymbolId, GenericArg)>>,
    def: DefId,
    depth: int,
) -> Option<Result<ConstValue, ConstEvalError>> {
    if def < ctx.defs@.len() {
        match ctx.defs@[def as int] {
            Def::Global { value } => pure_sem(ctx.types, substs, value, depth + 1),
            _ => Some(Err(ConstEvalError)),
        }
    } else {
        Some(Err(ConstEvalError))
    }
}

/// `def` names a constant definition of `ctx`.
pub open spec fn is_const_def(ctx: SemaContext, def: DefId) -> bool {
    def < ctx.defs@.len() && ctx.defs@[def as int] is Global
}

impl ConstEvaluator {
    /// The symbol a name resolves to: from the scope of the innermost constant
    /// being evaluated, or else from the current scope.
    pub open spec fn resolves_name(self, ctx: SemaContext, name: SymbolId) -> Option<SymbolInfo> {
        if self.const_scopes@.len() > 0 {
            ctx.resolves(self.const_scopes@.last(), name)
        } else {
            ctx.resolves_here(name)
        }
    }

    /// A name that is neither a local nor a bound const parameter.
    pub open spec fn names_no_value(self, name: SymbolId) -> bool {
        &&& lookup_scopes(self.core.values(), name) is None
        &&& const_arg_value(lookup_scopes(self.core.substs(), name)) is None
    }

    /// The value of the name `name` at `depth`, where it is determined: a
    /// local, then a bound const parameter, then a constant definition that the
    /// name resolves to; anything else is an error.
    pub open spec fn identifier_sem(self, ctx: SemaContext, name: SymbolId, depth: int) -> Option<
        Result<ConstValue, ConstEvalError>,
    > {
        match lookup_scopes(self.core.values(), name) {
            Some(v) => Some(Ok(v)),
            None => match const_arg_value(lookup_scopes(self.core.substs(), name)) {
                Some(v) => Some(Ok(v)),
                None => match self.resolves_name(ctx, name) {
                    Some(info) => match info.kind {
                        SymbolKind::Const => match info.def_id {
                            Some(def) => const_def_sem(ctx, self.core.substs(), def, depth),
                            None => Some(Err(ConstEvalError)),
                        },
                        _ => Some(Err(ConstEvalError)),
                    },
                    None => Some(Err(ConstEvalError)),
                },
            },
        }
    }

    /// The diagnostic a name that has no value is reported with, where it is
    /// not a constant definition.
    pub open spec fn identifier_diag(self, ctx: SemaContext, name: SymbolId) -> Option<DiagCode> {
        match self.resolves_name(ctx, name) {
            Some(info) => match info.kind {
                SymbolKind::Const => match info.def_id {
                    Some(_) => None,
                    None => Some(DiagCode::UndeclaredIdentifier),
                },
                SymbolKind::ConstParam => Some(DiagCode::ConstParamNotStandalone),
                kind => Some(DiagCode::NotCompileTimeConstant(kind)),
            },
            None => Some(DiagCode::UndeclaredIdentifier),
        }
    }
}

impl ConstEvaluator {
    /// The value of a const generic parameter bound by the innermost
    /// substitution that names it.
    fn const_param_value(&self, name: SymbolId) -> (r: Option<ConstValue>)
        ensures
            r == const_arg_value(lookup_scopes(self.core.substs(), name)),
    {
        match self.core.lookup_subst(name) {
            Some(GenericArg::Const(ConstGeneric::Value { value, .. })) => match value {
                ConstGenericValue::Int(v) => Some(ConstValue::Int(v)),
                ConstGenericValue::Bool(b) => Some(ConstValue::Bool(b)),
            },
            _ => None,
        }
    }

    fn eval_identifier(&mut self, ctx: &SemaContext, name: SymbolId, depth: usize, span: Span) -> (r:
        Result<ConstValue, ConstEvalError>)
        requires
            ctx.wf(),
            old(self).wf(),
            depth <= MAX_CONST_DEPTH,
        ensures
            old(self).keeps(*final(self)),
            old(self).identifier_sem(*ctx, name, depth as int) matches Some(res) ==> r == res,
            !old(self).names_no_value(name) ==> *final(self) == *old(self),
            old(self).names_no_value(name) ==> (old(self).identifier_diag(*ctx, name) matches Some(c)
                ==> final(self).diags@ == old(self).diags@.push(Diagnostic { code: c, span })
                && final(self).core == old(self).core),
        decreases 101 - depth, 1int,
    {
        if let Some(v) = self.core.lookup_local(name) {
            return Ok(v);
        }
        if let Some(v) = self.const_param_value(name) {
            return Ok(v);
        }
        let n = self.const_scopes.len();
        let info = if n > 0 {
            ctx.resolve_from(self.const_scopes[n - 1], name)
        } else {
            ctx.resolve(name)
        };
        match info {
            Some(info) => match info.kind {
                SymbolKind::Const => match info.def_id {
                    Some(def) => self.eval_const_def(ctx, def, depth),
                    None => {
                        self.emit(DiagCode::UndeclaredIdentifier, span);
                        Err(ConstEvalError)
                    },
                },
                SymbolKind::ConstParam => {
                    self.emit(DiagCode::ConstParamNotStandalone, span);
                    Err(ConstEvalError)
                },
                kind => {
                    self.emit(DiagCode::NotCompileTimeConstant(kind), span);
                    Err(ConstEvalError)
                },
            },
            None => {
                self.emit(DiagCode::UndeclaredIdentifier, span);
                Err(ConstEvalError)
            },
        }
    }

    /// The value of the constant definition `def`, evaluated from the scope
    /// that defines it.
    pub fn eval_const_def(&mut self, ctx: &SemaContext, def: DefId, depth: usize) -> (r: Result<
        ConstValue,
        ConstEvalError,
    >)
        requires
            ctx.wf(),
            old(self).wf(),
            depth <= MAX_CONST_DEPTH,
        ensures
            old(self).keeps(*final(self)),
            const_def_sem(*ctx, old(self).core.substs(), def, depth as int) matches Some(res) ==> r == res,
            !is_const_def(*ctx, def) ==> *final(self) == *old(self),
        decreases 101 - depth, 0int,
    {
        if def as usize >= ctx.defs.len() {
            return Err(ConstEvalError);
        }
        match &ctx.defs[def as usize] {
            Def::Global { value } => {
                let owner = ctx.def_owner_scope(def);
                if let Some(s) = owner {
                    self.const_scopes.push(s);
                }
                let r = self.eval_inner(ctx, value, depth + 1);
                if owner.is_some() {
                    let _ = self.const_scopes.pop();
                    proof {
                        assert(old(self).const_scopes@.push(owner->0).drop_last() =~= old(self).const_scopes@);
                    }
                }
                r
            },
            _ => Err(ConstEvalError),
        }
    }

    fn eval_const_block(
        &mut self,
        ctx: &SemaContext,
        stmts: &Vec<Expr>,
        result: &Option<Box<Expr>>,
        depth: usize,
    ) -> (r: Result<ConstValue, ConstEvalError>)
        requires
            ctx.wf(),
            old(self).wf(),
            depth <= MAX_CONST_DEPTH,
        ensures
            old(self).keeps(*final(self)),
            stmts@.len() == 0 ==> (tail_sem(ctx.types, old(self).core.substs(), *result, depth as int) matches Some(
                res,
            ) ==> r == res),
            stmts@.len() > 0 ==> (pure_sem(ctx.types, old(self).core.substs(), stmts@[0], depth + 1) matches Some(
                Err(_),
            ) ==> r is Err),
            result is None ==> (r is Ok ==> (r matches Ok(ConstValue::Void))),
        decreases 101 - depth, 1int,
    {
        let ghost substs = self.core.substs();
        let ghost d = self.diags@;
        self.core.push_local_scope();
        let mut i: usize = 0;
        while i < stmts.len()
            invariant
                ctx.wf(),
                self.wf(),
                self.core.substs() == substs,
                self.const_scopes@ == old(self).const_scopes@,
                d.is_prefix_of(self.diags@),
                old(self).diags@ == d,
                old(self).core.substs() == substs,
                depth <= MAX_CONST_DEPTH,
                i <= stmts@.len(),
                i > 0 ==> !(pure_sem(ctx.types, substs, stmts@[0], depth + 1) matches Some(Err(_))),
            decreases stmts@.len() - i,
        {
            let ghost before = self.diags@;
            let res = self.eval_inner(ctx, &stmts[i], depth + 1);
            proof {
                lemma_prefix_trans(d, before, self.diags@);
            }
            match res {
                Ok(_) => {},
                Err(e) => {
                    self.core.pop_local_scope();
                    return Err(e);
                },
            }
            if self.core.has_return_value() || self.core.loop_control().is_some() {
                self.core.pop_local_scope();
                return Ok(ConstValue::Void);
            }
            i = i + 1;
        }
        let r = match result {
            Some(e) => self.eval_inner(ctx, e, depth + 1),
            None => Ok(ConstValue::Void),
        };
        self.core.pop_local_scope();
        r
    }

    /// `let` with a binding or a wildcard pattern.
    fn eval_let(
        &mut self,
        ctx: &SemaContext,
        pattern: &Pattern,
        init: &Expr,
        else_clause: &Option<LetElse>,
        depth: usize,
        span: Span,
    ) -> (r: Result<ConstValue, ConstEvalError>)
        requires
            ctx.wf(),
            old(self).wf(),
            depth <= MAX_CONST_DEPTH,
        ensures
            old(self).keeps(*final(self)),
            r is Ok ==> (r matches Ok(ConstValue::Void)),
            pure_sem(ctx.types, old(self).core.substs(), *init, depth + 1) matches Some(Err(_)) ==> r is Err,
            pure_sem(ctx.types, old(self).core.substs(), *init, depth + 1) matches Some(Ok(v)) ==> match *pattern {
                Pattern::Binding { name, is_mut } => if else_clause is Some {
                    r is Err && final(self).diags@.last() == (Diagnostic { code: DiagCode::IrrefutableLetElse, span })
                } else {
                    &&& r matches Ok(ConstValue::Void)
                    &&& lookup_scopes(final(self).core.values(), name) == Some(v)
                    &&& lookup_scopes(final(self).core.mutability(), name) == Some(is_mut)
                    &&& lookup_scopes(final(self).core.local_types(), name) == Some(
                        resolve_ty(ctx.types, old(self).core.substs(), init.ty),
                    )
                },
                Pattern::Ignore => if else_clause is Some {
                    r is Err && final(self).diags@.last() == (Diagnostic { code: DiagCode::IrrefutableLetElse, span })
                } else {
                    r matches Ok(ConstValue::Void)
                },
                Pattern::Variant { .. } => else_clause is None ==> r is Err && final(self).diags@.last() == (Diagnostic {
                    code: DiagCode::RefutableLetNeedsElse,
                    span,
                }),
                Pattern::Destructure(_) => r is Err && final(self).diags@.last() == (Diagnostic {
                    code: DiagCode::UnsupportedConstruct,
                    span,
                }),
            },
        decreases 101 - depth, 1int,
    {
        let value = match self.eval_inner(ctx, init, depth + 1) {
            Ok(v) => v,
            Err(e) => {
                return Err(e);
            },
        };
        match pattern {
            Pattern::Binding { name, is_mut } => {
                if else_clause.is_some() {
                    self.emit(DiagCode::IrrefutableLetElse, span);
                    return Err(ConstEvalError);
                }
                let init_ty = self.resolved_type(ctx, init.ty);
                self.core.define_local(*name, value);
                let ghost c1 = self.core;
                self.core.define_local_type(*name, init_ty);
                let ghost c2 = self.core;
                self.core.define_local_mutability(*name, *is_mut);
                proof {
                    lemma_define_in_lookup(c1.local_types(), *name, init_ty);
                    lemma_define_in_lookup(c2.mutability(), *name, *is_mut);
                }
                Ok(ConstValue::Void)
            },
            Pattern::Ignore => {
                if else_clause.is_some() {
                    self.emit(DiagCode::IrrefutableLetElse, span);
                    return Err(ConstEvalError);
                }
                Ok(ConstValue::Void)
            },
            Pattern::Variant { name, binding } => {
                if else_clause.is_none() {
                    self.emit(DiagCode::RefutableLetNeedsElse, span);
                    return Err(ConstEvalError);
                }
                let init_ty = self.resolved_type(ctx, init.ty);
                match self.match_variant_pattern(ctx, *name, *binding, &value, init_ty, depth + 1, span) {
                    Ok(Some(bindings)) => {
                        self.define_bindings(&bindings);
                        Ok(ConstValue::Void)
                    },
                    Ok(None) => self.eval_let_else(ctx, else_clause, &value, init_ty, depth, span),
                    Err(e) => Err(e),
                }
            },
            Pattern::Destructure(_) => {
                self.emit(DiagCode::UnsupportedConstruct, span);
                Err(ConstEvalError)
            },
        }
    }

    /// Binds each name of `bindings` to its value in the innermost scope.
    fn define_bindings(&mut self, bindings: &Vec<(SymbolId, ConstValue)>)
        requires
            old(self).wf(),
        ensures
            old(self).keeps(*final(self)),
            final(self).diags == old(self).diags,
            final(self).core.returned() == old(self).core.returned(),
            final(self).core.control() == old(self).core.control(),
            final(self).core.loops() == old(self).core.loops(),
            final(self).core.functions() == old(self).core.functions(),
            forall|k: int|
                0 <= k < bindings@.len() && (forall|j: int| k < j < bindings@.len() ==> bindings@[j].0 != bindings@[k].0)
                    ==> #[trigger] lookup_scopes(final(self).core.values(), bindings@[k].0) == Some(bindings@[k].1),
    {
        let mut k: usize = 0;
        while k < bindings.len()
            invariant
                self.wf(),
                old(self).wf(),
                old(self).keeps(*self),
                self.diags == old(self).diags,
                self.core.returned() == old(self).core.returned(),
                self.core.control() == old(self).core.control(),
                self.core.loops() == old(self).core.loops(),
                self.core.functions() == old(self).core.functions(),
                k <= bindings@.len(),
                forall|m: int|
                    0 <= m < k && (forall|j: int| m < j < k ==> bindings@[j].0 != bindings@[m].0)
                        ==> #[trigger] lookup_scopes(self.core.values(), bindings@[m].0) == Some(bindings@[m].1),
            decreases bindings@.len() - k,
        {
            let ghost before = self.core.values();
            self.core.define_local(bindings[k].0, bindings[k].1.copy());
            proof {
                assert forall|m: int|
                    0 <= m < k + 1 && (forall|j: int| m < j < k + 1 ==> bindings@[j].0 != bindings@[m].0)
                        implies #[trigger] lookup_scopes(self.core.values(), bindings@[m].0) == Some(bindings@[m].1) by {
                    if m < k as int {
                        crate::eval_state::lemma_define_in_other(before, bindings@[k as int].0, bindings@[k as int].1, bindings@[m].0);
                    }
                }
            }
            k = k + 1;
        }
    }

    /// The `else` of a `let` whose refutable pattern did not match `value`:
    /// an expression is evaluated for its effect; arms are tried in order,
    /// the first whose pattern matches runs with its bindings.
    fn eval_let_else(
        &mut self,
        ctx: &SemaContext,
        else_clause: &Option<LetElse>,
        value: &ConstValue,
        init_ty: TypeId,
        depth: usize,
        span: Span,
    ) -> (r: Result<ConstValue, ConstEvalError>)
        requires
            ctx.wf(),
            old(self).wf(),
            depth <= MAX_CONST_DEPTH,
        ensures
            old(self).keeps(*final(self)),
            r is Ok ==> (r matches Ok(ConstValue::Void)),
            else_clause is None ==> r is Err && *final(self) == *old(self),
            match *else_clause {
                Some(LetElse::Expr(e)) => pure_sem(ctx.types, old(self).core.substs(), *e, depth + 1) matches Some(res)
                    ==> r == void_of(res),
                Some(LetElse::Arms(arms)) => arms@.len() == 0 ==> r is Err && final(self).diags@ == old(
                    self,
                ).diags@.push(Diagnostic { code: DiagCode::LetElseArmsNoMatch, span }),
                None => true,
            },
        decreases 101 - depth, 0int,
    {
        match else_clause {
            None => Err(ConstEvalError),
            Some(LetElse::Expr(e)) => match self.eval_inner(ctx, e, depth + 1) {
                Ok(_) => Ok(ConstValue::Void),
                Err(x) => Err(x),
            },
            Some(LetElse::Arms(arms)) => {
                let mut a: usize = 0;
                while a < arms.len()
                    invariant
                        ctx.wf(),
                        self.wf(),
                        old(self).wf(),
                        old(self).keeps(*self),
                        depth <= MAX_CONST_DEPTH,
                        a <= arms@.len(),
                        a == 0 ==> *self == *old(self),
                        *else_clause matches Some(LetElse::Arms(xs)) && xs@ == arms@,
                    decreases arms@.len() - a,
                {
                    let arm = &arms[a];
                    let ghost before = self.diags@;
                    let m: Result<Option<Vec<(SymbolId, ConstValue)>>, ConstEvalError> = match &arm.pattern {
                        Pattern::Binding { name, .. } => {
                            let mut b: Vec<(SymbolId, ConstValue)> = Vec::new();
                            b.push((*name, value.copy()));
                            Ok(Some(b))
                        },
                        Pattern::Ignore => Ok(Some(Vec::new())),
                        Pattern::Variant { name, binding } => self.match_variant_pattern(
                            ctx,
                            *name,
                            *binding,
                            value,
                            init_ty,
                            depth + 1,
                            span,
                        ),
                        Pattern::Destructure(_) => {
                            self.emit(DiagCode::UnsupportedConstruct, span);
                            proof {
                                crate::simd::lemma_prefix_append(before, seq![Diagnostic { code: DiagCode::UnsupportedConstruct, span }]);
                            }
                            Err(ConstEvalError)
                        },
                    };
                    proof {
                        lemma_prefix_trans(old(self).diags@, before, self.diags@);
                    }
                    match m {
                        Ok(Some(bindings)) => {
                            let ghost d1 = self.diags@;
                            self.core.push_local_scope();
                            self.define_bindings(&bindings);
                            if let Pattern::Binding { name, is_mut } = &arm.pattern {
                                self.core.define_local_type(*name, init_ty);
                                self.core.define_local_mutability(*name, *is_mut);
                            }
                            let ghost d2 = self.diags@;
                            let r = self.eval_inner(ctx, &arm.body, depth + 1);
                            self.core.pop_local_scope();
                            proof {
                                lemma_prefix_trans(old(self).diags@, d2, self.diags@);
                            }
                            return match r {
                                Ok(_) => Ok(ConstValue::Void),
                                Err(x) => Err(x),
                            };
                        },
                        Ok(None) => {},
                        Err(x) => {
                            return Err(x);
                        },
                    }
                    a = a + 1;
                }
                self.emit(DiagCode::LetElseArmsNoMatch, span);
                proof {
                    crate::simd::lemma_prefix_append(old(self).diags@, seq![Diagnostic { code: DiagCode::LetElseArmsNoMatch, span }]);
                }
                Err(ConstEvalError)
            },
        }
    }

    fn eval_const_while(&mut self, ctx: &SemaContext, cond: &Expr, body: &Expr, depth: usize, span: Span) -> (r:
        Result<ConstValue, ConstEvalError>)
        requires
            ctx.wf(),
            old(self).wf(),
            depth <= MAX_CONST_DEPTH,
        ensures
            old(self).keeps(*final(self)),
            r is Ok ==> (r matches Ok(ConstValue::Void)),
            final(self).core.loops() == old(self).core.loops(),
            pure_sem(ctx.types, old(self).core.substs(), *cond, depth + 1) matches Some(c) ==> (while_exit(c) matches Some(
                res,
            ) ==> r == res),
        decreases 101 - depth, 1int,
    {
        let ghost substs = self.core.substs();
        let ghost d = self.diags@;
        self.core.push_local_scope();
        let prev = self.core.replace_loop_depth(0);
        let inner = if prev < usize::MAX {
            prev + 1
        } else {
            prev
        };
        let _ = self.core.replace_loop_depth(inner);
        let mut iterations: usize = 0;
        let mut result: Result<ConstValue, ConstEvalError> = Ok(ConstValue::Void);
        loop
            invariant_except_break
                result matches Ok(ConstValue::Void),
            invariant
                ctx.wf(),
                self.wf(),
                self.core.substs() == substs,
                self.const_scopes@ == old(self).const_scopes@,
                d.is_prefix_of(self.diags@),
                old(self).diags@ == d,
                old(self).core.substs() == substs,
                depth <= MAX_CONST_DEPTH,
                iterations <= MAX_CONST_LOOP_ITERATIONS,
                result is Ok ==> (result matches Ok(ConstValue::Void)),
                iterations > 0 ==> (pure_sem(ctx.types, substs, *cond, depth + 1) matches Some(c) ==> while_exit(c) is None),
            ensures
                self.wf(),
                self.core.substs() == substs,
                self.const_scopes@ == old(self).const_scopes@,
                d.is_prefix_of(self.diags@),
                result is Ok ==> (result matches Ok(ConstValue::Void)),
                pure_sem(ctx.types, substs, *cond, depth + 1) matches Some(c) ==> (while_exit(c) matches Some(res)
                    ==> result == res),
            decreases MAX_CONST_LOOP_ITERATIONS - iterations,
        {
            if iterations >= MAX_CONST_LOOP_ITERATIONS {
                self.emit(DiagCode::LoopLimitExceeded, span);
                result = Err(ConstEvalError);
                break;
            }
            let ghost before = self.diags@;
            let c = self.eval_inner(ctx, cond, depth + 1);
            proof {
                lemma_prefix_trans(d, before, self.diags@);
            }
            match c {
                Ok(ConstValue::Bool(true)) => {},
                Ok(ConstValue::Bool(false)) => {
                    break;
                },
                Ok(_) => {
                    self.emit(DiagCode::WhileConditionNotBool, cond.span);
                    result = Err(ConstEvalError);
                    break;
                },
                Err(e) => {
                    result = Err(e);
                    break;
                },
            }
            if self.core.has_return_value() {
                break;
            }
            let ghost before2 = self.diags@;
            let b = self.eval_inner(ctx, body, depth + 1);
            proof {
                lemma_prefix_trans(d, before2, self.diags@);
            }
            match b {
                Ok(_) => {},
                Err(e) => {
                    result = Err(e);
                    break;
                },
            }
            if self.core.has_return_value() {
                break;
            }
            match self.core.loop_control() {
                Some(LoopControl::Break) => {
                    self.core.set_loop_control(None);
                    break;
                },
                Some(LoopControl::Continue) => {
                    self.core.set_loop_control(None);
                },
                None => {},
            }
            iterations = iterations + 1;
        }
        let _ = self.core.replace_loop_depth(prev);
        self.core.pop_local_scope();
        result
    }

    /// `break` and `continue`: recorded for the enclosing loop.
    fn eval_loop_control(&mut self, c: LoopControl, span: Span) -> (r: Result<ConstValue, ConstEvalError>)
        requires
            old(self).wf(),
        ensures
            old(self).keeps(*final(self)),
            r is Ok <==> old(self).core.loops() > 0,
            r is Ok ==> final(self).core.control() == Some(c),
            r is Ok ==> (r matches Ok(ConstValue::Void)),
    {
        if !self.core.in_loop() {
            match c {
                LoopControl::Break => self.emit(DiagCode::BreakOutsideLoop, span),
                LoopControl::Continue => self.emit(DiagCode::ContinueOutsideLoop, span),
            }
            return Err(ConstEvalError);
        }
        self.core.set_loop_control(Some(c));
        Ok(ConstValue::Void)
    }

    fn eval_const_return(
        &mut self,
        ctx: &SemaContext,
        value: &Option<Box<Expr>>,
        depth: usize,
        span: Span,
    ) -> (r: Result<ConstValue, ConstEvalError>)
        requires
            ctx.wf(),
            old(self).wf(),
            depth <= MAX_CONST_DEPTH,
        ensures
            old(self).keeps(*final(self)),
            r is Ok ==> (r matches Ok(ConstValue::Void)),
            old(self).core.functions() == 0 ==> r is Err && final(self).diags@ == old(self).diags@.push(
                Diagnostic { code: DiagCode::ReturnOutsideFn, span },
            ) && final(self).core == old(self).core,
            old(self).core.functions() > 0 ==> (return_sem(ctx.types, old(self).core.substs(), *value, depth as int)
                matches Some(res) ==> match res {
                Ok(v) => (r matches Ok(ConstValue::Void)) && final(self).core.returned() == Some(v),
                Err(_) => r is Err,
            }),
        decreases 101 - depth, 1int,
    {
        if !self.core.in_function() {
            self.emit(DiagCode::ReturnOutsideFn, span);
            return Err(ConstEvalError);
        }
        let v = match value {
            Some(e) => match self.core.current_return_type() {
                Some(rt) => {
                    self.core.push_expected_type(rt);
                    let r = self.eval_inner(ctx, e, depth + 1);
                    self.core.pop_expected_type();
                    match r {
                        Ok(v) => v,
                        Err(e) => {
                            return Err(e);
                        },
                    }
                },
                None => match self.eval_inner(ctx, e, depth + 1) {
                    Ok(v) => v,
                    Err(e) => {
                        return Err(e);
                    },
                },
            },
            None => ConstValue::Void,
        };
        self.core.set_return_value(v);
        Ok(ConstValue::Void)
    }

    fn eval_const_assign(
        &mut self,
        ctx: &SemaContext,
        lhs: &Expr,
        op: AssignmentOperator,
        rhs: &Expr,
        depth: usize,
        span: Span,
    ) -> (r: Result<ConstValue, ConstEvalError>)
        requires
            ctx.wf(),
            old(self).wf(),
            depth <= MAX_CONST_DEPTH,
        ensures
            old(self).keeps(*final(self)),
            r is Ok ==> (r matches Ok(ConstValue::Void)),
            lhs.kind is Infer && op == AssignmentOperator::Assign ==> (pure_sem(
                ctx.types,
                old(self).core.substs(),
                *rhs,
                depth + 1,
            ) matches Some(res) ==> r == void_of(res)),
            lhs.kind is Infer && op != AssignmentOperator::Assign ==> r is Err && old(self).diags@.push(
                Diagnostic { code: DiagCode::DiscardOnlyAssign, span: lhs.span },
            ).is_prefix_of(final(self).diags@),
            !(lhs.kind is Infer) && !(lhs.kind is Identifier) ==> r is Err && final(self).diags@ == old(
                self,
            ).diags@.push(Diagnostic { code: DiagCode::UnsupportedConstruct, span }) && final(self).core == old(
                self,
            ).core,
            lhs.kind matches ExprKind::Identifier(name) ==> match old(self).assign_target(name) {
                Err(c) => r is Err && final(self).diags@ == old(self).diags@.push(Diagnostic { code: c, span })
                    && final(self).core == old(self).core,
                Ok(i) => old(self).assigned_local(*final(self), r, i, name, op, pure_sem(
                    ctx.types,
                    old(self).core.substs(),
                    *rhs,
                    depth + 1,
                )),
            },
        decreases 101 - depth, 1int,
    {
        match &lhs.kind {
            ExprKind::Infer => {
                if op != AssignmentOperator::Assign {
                    self.emit(DiagCode::DiscardOnlyAssign, lhs.span);
                    let _ = self.eval_inner(ctx, rhs, depth + 1);
                    return Err(ConstEvalError);
                }
                match self.eval_inner(ctx, rhs, depth + 1) {
                    Ok(_) => Ok(ConstValue::Void),
                    Err(e) => Err(e),
                }
            },
            ExprKind::Identifier(name) => {
                let slot = match self.core.lookup_local_slot(*name) {
                    Some(s) => s,
                    None => {
                        self.emit(DiagCode::AssignNotLocal, span);
                        return Err(ConstEvalError);
                    },
                };
                proof {
                    lemma_slot_of_range(self.core.values(), *name, self.core.values().len() as int);
                }
                match self.core.lookup_local_mutability_at(slot, *name) {
                    Some(true) => {},
                    Some(false) => {
                        self.emit(DiagCode::AssignImmutable, span);
                        return Err(ConstEvalError);
                    },
                    None => {
                        self.emit(DiagCode::AssignNotLocal, span);
                        return Err(ConstEvalError);
                    },
                }
                let root = match self.core.lookup_local_at(slot, *name) {
                    Some(v) => v,
                    None => {
                        self.emit(DiagCode::AssignNotLocal, span);
                        return Err(ConstEvalError);
                    },
                };
                let rhs_value = match self.eval_inner(ctx, rhs, depth + 1) {
                    Ok(v) => v,
                    Err(e) => {
                        return Err(e);
                    },
                };
                let next = match self.apply_assignment_operator(root, op, rhs_value, span) {
                    Ok(v) => v,
                    Err(e) => {
                        return Err(e);
                    },
                };
                let ghost before = self.core.values();
                if !self.core.assign_local_at(slot, *name, next) {
                    self.emit(DiagCode::AssignNotLocal, span);
                    return Err(ConstEvalError);
                }
                proof {
                    lemma_set_entry_find(before[slot as int], *name, next, *name);
                }
                Ok(ConstValue::Void)
            },
            _ => {
                self.emit(DiagCode::UnsupportedConstruct, span);
                Err(ConstEvalError)
            },
        }
    }

    /// Field access: a constant of a module, or a field of a struct constant.
    fn eval_field_access(
        &mut self,
        ctx: &SemaContext,
        lhs: &Expr,
        field: SymbolId,
        depth: usize,
        span: Span,
    ) -> (r: Result<ConstValue, ConstEvalError>)
        requires
            ctx.wf(),
            old(self).wf(),
            depth <= MAX_CONST_DEPTH,
        ensures
            old(self).keeps(*final(self)),
            field_sem(*ctx, old(self).core.substs(), *lhs, field, depth as int) matches Some(res) ==> r == res,
        decreases 101 - depth, 1int,
    {
        let t = self.resolved_type(ctx, lhs.ty);
        if let TypeKind::Module(m) = ctx.types.get(t) {
            let m = *m;
            if m as usize >= ctx.defs.len() {
                self.emit(DiagCode::ExpectedModuleDef, span);
                return Err(ConstEvalError);
            }
            let scope = match &ctx.defs[m as usize] {
                Def::Module { scope_id, .. } => *scope_id,
                _ => {
                    self.emit(DiagCode::ExpectedModuleDef, span);
                    return Err(ConstEvalError);
                },
            };
            return match ctx.lookup_in(scope, field) {
                Some(info) => match info.kind {
                    SymbolKind::Const => match info.def_id {
                        Some(def) => self.eval_const_def(ctx, def, depth),
                        None => Err(ConstEvalError),
                    },
                    kind => {
                        self.emit(DiagCode::NotCompileTimeConstant(kind), span);
                        Err(ConstEvalError)
                    },
                },
                None => {
                    self.emit(DiagCode::ConstNotFoundInModule, span);
                    Err(ConstEvalError)
                },
            };
        }
        let base = match self.eval_inner(ctx, lhs, depth + 1) {
            Ok(v) => v,
            Err(e) => {
                return Err(e);
            },
        };
        match base {
            ConstValue::Struct(fields) => match fields.get(field) {
                Some(v) => Ok(v.copy()),
                None => {
                    self.emit(DiagCode::FieldNotFound, span);
                    Err(ConstEvalError)
                },
            },
            _ => {
                self.emit(DiagCode::FieldAccessNonStruct, span);
                Err(ConstEvalError)
            },
        }
    }

    fn eval_index_access(
        &mut self,
        ctx: &SemaContext,
        lhs: &Expr,
        index: &Expr,
        depth: usize,
        span: Span,
    ) -> (r: Result<ConstValue, ConstEvalError>)
        requires
            ctx.wf(),
            old(self).wf(),
            depth <= MAX_CONST_DEPTH,
        ensures
            old(self).keeps(*final(self)),
            index_sem(ctx.types, old(self).core.substs(), *lhs, *index, depth as int) matches Some(res) ==> r == res,
        decreases 101 - depth, 1int,
    {
        let base = match self.eval_inner(ctx, lhs, depth + 1) {
            Ok(v) => v,
            Err(e) => {
                return Err(e);
            },
        };
        let idx = match self.eval_usize_at(ctx, index, depth + 1) {
            Ok(i) => i,
            Err(e) => {
                return Err(e);
            },
        };
        match base {
            ConstValue::Array(items) => {
                if idx as u128 > usize::MAX as u128 {
                    self.emit(DiagCode::IndexOutOfBounds, span);
                    return Err(ConstEvalError);
                }
                match items.get(idx as usize) {
                    Some(v) => Ok(v.copy()),
                    None => {
                        self.emit(DiagCode::IndexOutOfBounds, span);
                        Err(ConstEvalError)
                    },
                }
            },
            _ => {
                self.emit(DiagCode::IndexNonArray, span);
                Err(ConstEvalError)
            },
        }
    }

    /// Evaluates `expr` as a usize-like constant: a non-negative integer of at
    /// most 64 bits.
    pub fn eval_usize(&mut self, ctx: &SemaContext, expr: &Expr) -> (r: Result<u64, ConstEvalError>)
        requires
            ctx.wf(),
            old(self).wf(),
        ensures
            old(self).keeps(*final(self)),
            pure_sem(ctx.types, old(self).core.substs(), *expr, 0) matches Some(res) ==> r
                == usize_of(res),
            exists|mid: ConstEvaluator, v: Result<ConstValue, ConstEvalError>|
                #[trigger] old(self).evaluates(mid, *ctx, *expr, 0, v) && usize_step(mid, *final(self), v, expr.span, r),
    {
        self.eval_usize_at(ctx, expr, 0)
    }

    /// Evaluates `expr` as an integer constant.
    pub fn eval_math(&mut self, ctx: &SemaContext, expr: &Expr) -> (r: Result<i128, ConstEvalError>)
        requires
            ctx.wf(),
            old(self).wf(),
        ensures
            old(self).keeps(*final(self)),
            pure_sem(ctx.types, old(self).core.substs(), *expr, 0) matches Some(res) ==> r
                == int_of(res),
            exists|mid: ConstEvaluator, v: Result<ConstValue, ConstEvalError>|
                #[trigger] old(self).evaluates(mid, *ctx, *expr, 0, v) && int_step(mid, *final(self), v, expr.span, r),
    {
        let ghost s0 = *self;
        let inner = self.eval_inner(ctx, expr, 0);
        let ghost s1 = *self;
        proof {
            assert(s0.evaluates(s1, *ctx, *expr, 0, inner));
        }
        match inner {
            Ok(ConstValue::Int(v)) => Ok(v),
            Ok(_) => {
                self.emit(DiagCode::ExpectedIntegerConstant, expr.span);
                Err(ConstEvalError)
            },
            Err(e) => Err(e),
        }
    }

    /// Evaluates `expr` to a constant value.
    pub fn eval_const_value(&mut self, ctx: &SemaContext, expr: &Expr) -> (r: Result<
        ConstValue,
        ConstEvalError,
    >)
        requires
            ctx.wf(),
            old(self).wf(),
        ensures
            old(self).keeps(*final(self)),
            pure_sem(ctx.types, old(self).core.substs(), *expr, 0) matches Some(res) ==> r == res,
            old(self).evaluates(*final(self), *ctx, *expr, 0, r),
    {
        self.eval_inner(ctx, expr, 0)
    }
}


impl ConstEvaluator {
    /// The type a bit intrinsic works on: an integer, or a vector of integers.
    fn check_bit_intrinsic_target_type(&mut self, ctx: &SemaContext, ty: TypeId, span: Span) -> (r: Option<
        TypeId,
    >)
        requires
            ctx.wf(),
        ensures
            r matches Some(t) ==> ctx.types.valid(t),
            ({
                let n = ctx.types.norm(known_ty(ctx.types, ty));
                &&& n == TY_ERROR ==> r is None && final(self).diags == old(self).diags
                &&& n != TY_ERROR && bit_target_ok(ctx.types, n) ==> r == Some(n) && final(self).diags == old(
                    self,
                ).diags
                &&& n != TY_ERROR && !bit_target_ok(ctx.types, n) ==> r is None && final(self).diags@ == old(
                    self,
                ).diags@.push(Diagnostic { code: DiagCode::BitIntrinsicTargetType, span })
            }),
            final(self).core == old(self).core,
            final(self).const_scopes == old(self).const_scopes,
            old(self).diags@.is_prefix_of(final(self).diags@),
    {
        let t0 = if (ty as usize) < ctx.types.num_types() {
            ty
        } else {
            TY_ERROR
        };
        let n = ctx.types.normalize(t0);
        if n == TY_ERROR {
            return None;
        }
        let supported = if ctx.types.is_integer(n) {
            true
        } else {
            match ctx.types.simd_info(n) {
                Some((e, _)) => {
                    assert(crate::types::children_below(ctx.types.kinds()[n as int], n as int));
                    ctx.types.is_integer(e)
                },
                None => false,
            }
        };
        if !supported {
            self.emit(DiagCode::BitIntrinsicTargetType, span);
            return None;
        }
        Some(n)
    }

    /// Width in bits of a type of known layout of at most 128 bits.
    fn int_width(&mut self, ctx: &SemaContext, t: TypeId, span: Span) -> (r: Result<u32, ConstEvalError>)
        requires
            ctx.wf(),
            ctx.types.valid(t),
        ensures
            r matches Ok(b) ==> 1 <= b <= 128,
            match ctx.types.size_of(t) {
                Some(size) => if 1 <= size <= 16 {
                    r == Ok::<u32, ConstEvalError>((size * 8) as u32) && final(self).diags == old(self).diags
                } else {
                    r is Err && final(self).diags@ == old(self).diags@.push(
                        Diagnostic { code: DiagCode::LayoutUnknown, span },
                    )
                },
                None => r is Err && final(self).diags@ == old(self).diags@.push(
                    Diagnostic { code: DiagCode::LayoutUnknown, span },
                ),
            },
            final(self).core == old(self).core,
            final(self).const_scopes == old(self).const_scopes,
            old(self).diags@.is_prefix_of(final(self).diags@),
    {
        match ctx.types.layout_size(t) {
            Some(size) => {
                if size == 0 || size > 16 {
                    self.emit(DiagCode::LayoutUnknown, span);
                    Err(ConstEvalError)
                } else {
                    Ok((size * 8) as u32)
                }
            },
            None => {
                self.emit(DiagCode::LayoutUnknown, span);
                Err(ConstEvalError)
            },
        }
    }

    /// Calls in constant expressions: the compile-time intrinsics.
    fn eval_call(
        &mut self,
        ctx: &SemaContext,
        callee: &Expr,
        args: &Vec<Expr>,
        depth: usize,
        span: Span,
    ) -> (r: Result<ConstValue, ConstEvalError>)
        requires
            ctx.wf(),
            old(self).wf(),
            depth <= MAX_CONST_DEPTH,
        ensures
            old(self).keeps(*final(self)),
            !(ctx.types.kind(resolve_ty(ctx.types, old(self).core.substs(), callee.ty)) is FnDef) ==> r is Err
                && final(self).diags@ == old(self).diags@.push(Diagnostic { code: DiagCode::CallsNotAllowed, span })
                && final(self).core == old(self).core,
            ctx.types.kind(resolve_ty(ctx.types, old(self).core.substs(), callee.ty)) matches TypeKind::FnDef(def, gargs)
                ==> old(self).call_outcome(*final(self), *ctx, def, gargs@, callee.kind is FieldAccess, args@.len() as int, span, r),
        decreases 101 - depth, 1int,
    {
        let ct = self.resolved_type(ctx, callee.ty);
        let (def, gargs) = match ctx.types.get(ct) {
            TypeKind::FnDef(d, a) => (*d, a),
            _ => {
                self.emit(DiagCode::CallsNotAllowed, span);
                return Err(ConstEvalError);
            },
        };
        if def as usize >= ctx.defs.len() {
            return Err(ConstEvalError);
        }
        let f = match &ctx.defs[def as usize] {
            Def::Function(f) => f,
            _ => {
                return Err(ConstEvalError);
            },
        };
        let k = match f.intrinsic {
            Some(k) => k,
            None => {
                let mut values: Vec<ConstValue> = Vec::new();
                let ghost d0 = self.diags@;
                if let ExprKind::FieldAccess { lhs, .. } = &callee.kind {
                    let lt = self.resolved_type(ctx, lhs.ty);
                    let is_module = match ctx.types.get(lt) {
                        TypeKind::Module(_) => true,
                        _ => false,
                    };
                    if !is_module {
                        match self.eval_inner(ctx, lhs, depth + 1) {
                            Ok(v) => values.push(v),
                            Err(e) => {
                                return Err(e);
                            },
                        }
                    }
                }
                let mut i: usize = 0;
                while i < args.len()
                    invariant
                        ctx.wf(),
                        self.wf(),
                        old(self).wf(),
                        depth <= MAX_CONST_DEPTH,
                        self.core.substs() == old(self).core.substs(),
                        self.const_scopes@ == old(self).const_scopes@,
                        old(self).diags@.is_prefix_of(self.diags@),
                        i <= args@.len(),
                        !(callee.kind is FieldAccess) ==> values@.len() == i,
                        ctx.types.kind(resolve_ty(ctx.types, old(self).core.substs(), callee.ty)) matches TypeKind::FnDef(
                            dd,
                            _,
                        ) && dd == def,
                        def < ctx.defs@.len(),
                        ctx.defs@[def as int] matches Def::Function(g) && g.intrinsic is None,
                    decreases args@.len() - i,
                {
                    let ghost before = self.diags@;
                    match self.eval_inner(ctx, &args[i], depth + 1) {
                        Ok(v) => values.push(v),
                        Err(e) => {
                            proof {
                                lemma_prefix_trans(old(self).diags@, before, self.diags@);
                            }
                            return Err(e);
                        },
                    }
                    proof {
                        lemma_prefix_trans(old(self).diags@, before, self.diags@);
                    }
                    i = i + 1;
                }
                let mut generic_args: Vec<GenericArg> = Vec::new();
                let mut j: usize = 0;
                while j < gargs.len()
                    invariant
                        j <= gargs@.len(),
                    decreases gargs@.len() - j,
                {
                    generic_args.push(GenericArg::Type(gargs[j]));
                    j = j + 1;
                }
                let ghost before = self.diags@;
                let r = self.invoke_function(ctx, def, &generic_args, values, depth, span);
                proof {
                    lemma_prefix_trans(old(self).diags@, before, self.diags@);
                }
                return r;
            },
        };
        let n_generics = f.generics.len();
        let ghost before = self.diags@;
        let r = self.eval_intrinsic_call(ctx, k, gargs, n_generics, args, depth, span);
        proof {
            lemma_prefix_trans(old(self).diags@, before, self.diags@);
        }
        r
    }

    /// Evaluates a call of the compiler intrinsic `k` whose callee type
    /// carries the generic arguments `gargs` of the `n_generics` the intrinsic
    /// declares: `@sizeOf` gives the size of its type argument; the bit
    /// counts, `@bswap` and `@intCast` compute on their integer argument; the
    /// memory intrinsics and every other intrinsic cannot be evaluated.
    fn eval_intrinsic_call(
        &mut self,
        ctx: &SemaContext,
        k: Intrinsic,
        gargs: &Vec<TypeId>,
        n_generics: usize,
        args: &Vec<Expr>,
        depth: usize,
        span: Span,
    ) -> (r: Result<ConstValue, ConstEvalError>)
        requires
            ctx.wf(),
            old(self).wf(),
            depth <= MAX_CONST_DEPTH,
        ensures
            old(self).keeps(*final(self)),
            old(self).intrinsic_call_ok(*final(self), *ctx, k, gargs@, n_generics as int, span, r),
        decreases 101 - depth, 0int,
    {
        proof {
            crate::traits::lemma_prefix_refl(self.diags@);
        }
        if gargs.len() != n_generics {
            self.emit(DiagCode::IntrinsicNeedsGenericArgs, span);
            return Err(ConstEvalError);
        }
        match k {
            Intrinsic::SizeOf => {
                if gargs.len() == 0 {
                    return Err(ConstEvalError);
                }
                let t = self.resolved_type(ctx, gargs[0]);
                match ctx.types.layout_size(t) {
                    Some(size) => Ok(ConstValue::Int(size as i128)),
                    None => {
                        self.emit(DiagCode::LayoutUnknown, span);
                        Err(ConstEvalError)
                    },
                }
            },
            Intrinsic::PopCount | Intrinsic::Clz | Intrinsic::Ctz | Intrinsic::Bswap => {
                if gargs.len() == 0 || args.len() == 0 {
                    return Err(ConstEvalError);
                }
                let target = match self.check_bit_intrinsic_target_type(ctx, gargs[0], span) {
                    Some(t) => t,
                    None => {
                        return Err(ConstEvalError);
                    },
                };
                let ghost d0 = self.diags@;
                let v = match self.eval_inner(ctx, &args[0], depth + 1) {
                    Ok(ConstValue::Int(v)) => v,
                    _ => {
                        return Err(ConstEvalError);
                    },
                };
                let ghost d1 = self.diags@;
                let bits = match self.int_width(ctx, target, span) {
                    Ok(b) => b,
                    Err(e) => {
                        proof {
                            lemma_prefix_trans(d1, d1, self.diags@);
                        }
                        return Err(e);
                    },
                };
                let r = match k {
                    Intrinsic::PopCount => crate::bit_intrinsics::eval_bit_count(crate::bit_intrinsics::BitCount::PopCount, v, bits),
                    Intrinsic::Clz => crate::bit_intrinsics::eval_bit_count(crate::bit_intrinsics::BitCount::Clz, v, bits),
                    Intrinsic::Ctz => crate::bit_intrinsics::eval_bit_count(crate::bit_intrinsics::BitCount::Ctz, v, bits),
                    _ => crate::bit_intrinsics::eval_bswap_value(v, bits),
                };
                Ok(ConstValue::Int(r))
            },
            Intrinsic::IntCast => {
                if gargs.len() < 2 || args.len() == 0 {
                    return Err(ConstEvalError);
                }
                let v = match self.eval_inner(ctx, &args[0], depth + 1) {
                    Ok(ConstValue::Int(v)) => v,
                    _ => {
                        return Err(ConstEvalError);
                    },
                };
                let raw = gargs[1];
                let t = self.resolved_type(ctx, raw);
                let bits = match self.int_width(ctx, t, span) {
                    Ok(b) => b,
                    Err(e) => {
                        return Err(e);
                    },
                };
                let signed = if (raw as usize) < ctx.types.num_types() {
                    match ctx.types.get(raw) {
                        TypeKind::Primitive(p) => p.signed(),
                        _ => false,
                    }
                } else {
                    false
                };
                Ok(ConstValue::Int(crate::bit_intrinsics::eval_int_cast_value(v, bits, signed)))
            },
            Intrinsic::Memcpy | Intrinsic::Memmove | Intrinsic::Memset => {
                self.emit(DiagCode::MemoryIntrinsicNotConst, span);
                Err(ConstEvalError)
            },
            _ => {
                self.emit(DiagCode::IntrinsicNotConst, span);
                Err(ConstEvalError)
            },
        }
    }
}

impl ConstEvaluator {
    /// Evaluates `e` one level deeper, reporting the depth limit as the
    /// evaluation itself does.
    fn eval_nested(&mut self, ctx: &SemaContext, e: &Expr, depth: usize) -> (r: Result<ConstValue, ConstEvalError>)
        requires
            ctx.wf(),
            old(self).wf(),
            depth <= MAX_CONST_DEPTH + 1,
        ensures
            old(self).keeps(*final(self)),
            depth + 1 > MAX_CONST_DEPTH ==> r is Err && final(self).diags@ == old(self).diags@.push(
                Diagnostic { code: DiagCode::ConstDepthExceeded, span: e.span },
            ) && final(self).core == old(self).core,
            depth + 1 <= MAX_CONST_DEPTH ==> (pure_sem(ctx.types, old(self).core.substs(), *e, depth + 1) matches Some(
                res,
            ) ==> r == res),
        decreases 101 - depth, 0int,
    {
        if depth + 1 > MAX_CONST_DEPTH {
            self.emit(DiagCode::ConstDepthExceeded, e.span);
            return Err(ConstEvalError);
        }
        self.eval_inner(ctx, e, depth + 1)
    }

    /// The value of the variant `variant_name` of the payload-free enum type
    /// `ty`: the integer it is numbered with, counting on from the last
    /// explicit value.
    fn eval_enum_literal(
        &mut self,
        ctx: &SemaContext,
        ty: TypeId,
        variant_name: SymbolId,
        depth: usize,
        span: Span,
    ) -> (r: Result<ConstValue, ConstEvalError>)
        requires
            ctx.wf(),
            old(self).wf(),
            depth <= MAX_CONST_DEPTH,
        ensures
            old(self).keeps(*final(self)),
            old(self).enum_literal_outcome(*final(self), *ctx, ty, variant_name, span, r),
        decreases 101 - depth, 1int,
    {
        proof {
            crate::traits::lemma_prefix_refl(self.diags@);
        }
        let t = self.resolved_type(ctx, ty);
        let def_id = match ctx.types.get(t) {
            TypeKind::Enum(d, _) => *d,
            _ => {
                self.emit(DiagCode::VariantLiteralUnresolved, span);
                return Err(ConstEvalError);
            },
        };
        if def_id as usize >= ctx.defs.len() {
            return Err(ConstEvalError);
        }
        let variants = match &ctx.defs[def_id as usize] {
            Def::Enum { variants, .. } => variants,
            _ => {
                return Err(ConstEvalError);
            },
        };
        let mut j: usize = 0;
        while j < variants.len()
            invariant
                *self == *old(self),
                old(self).wf(),
                ctx.types.kind(resolve_ty(ctx.types, old(self).core.substs(), ty)) matches TypeKind::Enum(dd, _) && dd
                    == def_id,
                enum_variants(*ctx, def_id) == Some(variants@),
                j <= variants@.len(),
                forall|k: int| 0 <= k < j ==> (#[trigger] variants@[k]).payload is None,
            decreases variants@.len() - j,
        {
            if variants[j].payload.is_some() {
                self.emit(DiagCode::PayloadVariantAsInteger, span);
                return Err(ConstEvalError);
            }
            j = j + 1;
        }
        let mut current: i128 = 0;
        let mut i: usize = 0;
        while i < variants.len()
            invariant
                ctx.wf(),
                self.wf(),
                old(self).keeps(*self),
                depth <= MAX_CONST_DEPTH,
                i <= variants@.len(),
                forall|k: int| 0 <= k < i ==> (#[trigger] variants@[k]).name != variant_name,
                old(self).wf(),
                ctx.types.kind(resolve_ty(ctx.types, old(self).core.substs(), ty)) matches TypeKind::Enum(dd, _) && dd
                    == def_id,
                enum_variants(*ctx, def_id) == Some(variants@),
                payload_free(variants@),
                implicit_upto(variants@, i - 1) ==> current == i,
            decreases variants@.len() - i,
        {
            if let Some(value) = &variants[i].value {
                let ghost before = *self;
                if let Ok(ConstValue::Int(v)) = self.eval_nested(ctx, value, depth) {
                    current = v;
                }
                proof {
                    lemma_prefix_trans(old(self).diags@, before.diags@, self.diags@);
                }
            }
            if variants[i].name == variant_name {
                proof {
                    lemma_variant_index_of(variants@, variant_name, i as int);
                }
                return Ok(ConstValue::Int(current));
            }
            current = current.wrapping_add(1);
            i = i + 1;
        }
        proof {
            assert(!exists|k: int| first_variant(variants@, variant_name, k));
        }
        self.emit(DiagCode::VariantNotFound, span);
        Err(ConstEvalError)
    }

    /// The tag of the variant `variant_name` of the enum type `target_ty`;
    /// `None` for a type that is no enum.
    fn variant_tag(
        &mut self,
        ctx: &SemaContext,
        target_ty: TypeId,
        variant_name: SymbolId,
        depth: usize,
        span: Span,
    ) -> (r: Result<Option<i128>, ConstEvalError>)
        requires
            ctx.wf(),
            old(self).wf(),
            depth <= MAX_CONST_DEPTH + 1,
        ensures
            old(self).keeps(*final(self)),
            old(self).variant_tag_outcome(*final(self), *ctx, target_ty, variant_name, span, r),
        decreases 101 - depth, 1int,
    {
        proof {
            crate::traits::lemma_prefix_refl(self.diags@);
        }
        let t = if (target_ty as usize) < ctx.types.num_types() {
            target_ty
        } else {
            TY_ERROR
        };
        let def_id = match ctx.types.get(t) {
            TypeKind::Enum(d, _) => *d,
            _ => {
                return Ok(None);
            },
        };
        if def_id as usize >= ctx.defs.len() {
            return Err(ConstEvalError);
        }
        let variants = match &ctx.defs[def_id as usize] {
            Def::Enum { variants, .. } => variants,
            _ => {
                return Err(ConstEvalError);
            },
        };
        let mut current: i128 = 0;
        let mut i: usize = 0;
        while i < variants.len()
            invariant
                ctx.wf(),
                self.wf(),
                old(self).keeps(*self),
                depth <= MAX_CONST_DEPTH + 1,
                i <= variants@.len(),
                old(self).wf(),
                ctx.types.kind(known_ty(ctx.types, target_ty)) matches TypeKind::Enum(dd, _) && dd == def_id,
                enum_variants(*ctx, def_id) == Some(variants@),
                forall|k: int| 0 <= k < i ==> (#[trigger] variants@[k]).name != variant_name,
                implicit_upto(variants@, i - 1) ==> current == i,
            decreases variants@.len() - i,
        {
            if let Some(value) = &variants[i].value {
                let ghost before = *self;
                if let Ok(ConstValue::Int(v)) = self.eval_nested(ctx, value, depth) {
                    current = v;
                }
                proof {
                    lemma_prefix_trans(old(self).diags@, before.diags@, self.diags@);
                }
            }
            if variants[i].name == variant_name {
                proof {
                    lemma_variant_index_of(variants@, variant_name, i as int);
                }
                return Ok(Some(current));
            }
            current = current.wrapping_add(1);
            i = i + 1;
        }
        proof {
            assert(!exists|k: int| first_variant(variants@, variant_name, k));
        }
        self.emit(DiagCode::VariantNotFound, span);
        Err(ConstEvalError)
    }

    /// Whether `target_value`, of type `target_ty`, is the variant
    /// `variant_name`; its payload is bound to `binding` where both exist.
    fn match_variant_pattern(
        &mut self,
        ctx: &SemaContext,
        variant_name: SymbolId,
        binding: Option<SymbolId>,
        target_value: &ConstValue,
        target_ty: TypeId,
        depth: usize,
        span: Span,
    ) -> (r: Result<Option<Vec<(SymbolId, ConstValue)>>, ConstEvalError>)
        requires
            ctx.wf(),
            old(self).wf(),
            depth <= MAX_CONST_DEPTH + 1,
        ensures
            old(self).keeps(*final(self)),
            old(self).variant_pattern_outcome(*final(self), *ctx, target_ty, variant_name, binding, *target_value, r),
        decreases 101 - depth, 2int,
    {
        let expected = match self.variant_tag(ctx, target_ty, variant_name, depth, span) {
            Ok(Some(t)) => t,
            Ok(None) => {
                return Ok(None);
            },
            Err(e) => {
                return Err(e);
            },
        };
        let mut bindings: Vec<(SymbolId, ConstValue)> = Vec::new();
        match target_value {
            ConstValue::Enum { tag, payload } => {
                if *tag == expected {
                    if let (Some(b), Some(p)) = (binding, payload) {
                        bindings.push((b, p.copy()));
                    }
                    Ok(Some(bindings))
                } else {
                    Ok(None)
                }
            },
            ConstValue::Int(tag) => {
                if *tag == expected {
                    Ok(Some(bindings))
                } else {
                    Ok(None)
                }
            },
            _ => Ok(None),
        }
    }

    /// Whether `target_value` matches `pattern`, with the bindings it makes.
    fn match_pattern(
        &mut self,
        ctx: &SemaContext,
        pattern: &MatchPattern,
        target_value: &ConstValue,
        target_ty: TypeId,
        depth: usize,
    ) -> (r: Result<Option<Vec<(SymbolId, ConstValue)>>, ConstEvalError>)
        requires
            ctx.wf(),
            old(self).wf(),
            depth <= MAX_CONST_DEPTH + 1,
        ensures
            old(self).keeps(*final(self)),
            pattern_sem(ctx.types, old(self).core.substs(), *pattern, *target_value, depth as int) matches Some(m)
                ==> bindings_are(r, m),
            match *pattern {
                MatchPattern::Variant { name, binding } => old(self).variant_pattern_outcome(
                    *final(self),
                    *ctx,
                    target_ty,
                    name,
                    binding,
                    *target_value,
                    r,
                ),
                MatchPattern::Pattern(Pattern::Variant { name, binding }) => old(self).variant_pattern_outcome(
                    *final(self),
                    *ctx,
                    target_ty,
                    name,
                    binding,
                    *target_value,
                    r,
                ),
                _ => true,
            },
        decreases 101 - depth, 3int,
    {
        proof {
            crate::traits::lemma_prefix_refl(self.diags@);
        }
        match pattern {
            MatchPattern::Value(e) => {
                let v = match self.eval_nested(ctx, e, depth) {
                    Ok(v) => v,
                    Err(err) => {
                        return Err(err);
                    },
                };
                if v.same(target_value) {
                    Ok(Some(Vec::new()))
                } else {
                    Ok(None)
                }
            },
            MatchPattern::Range { start, end, inclusive } => {
                let lo = match self.eval_nested(ctx, start, depth) {
                    Ok(v) => v,
                    Err(err) => {
                        return Err(err);
                    },
                };
                let ghost mid = self.diags@;
                let hi = match self.eval_nested(ctx, end, depth) {
                    Ok(v) => v,
                    Err(err) => {
                        proof {
                            lemma_prefix_trans(old(self).diags@, mid, self.diags@);
                        }
                        return Err(err);
                    },
                };
                proof {
                    lemma_prefix_trans(old(self).diags@, mid, self.diags@);
                }
                let hit = match (target_value, lo, hi) {
                    (ConstValue::Int(t), ConstValue::Int(a), ConstValue::Int(b)) => if *inclusive {
                        a <= *t && *t <= b
                    } else {
                        a <= *t && *t < b
                    },
                    _ => false,
                };
                if hit {
                    Ok(Some(Vec::new()))
                } else {
                    Ok(None)
                }
            },
            MatchPattern::Variant { name, binding } => self.match_variant_pattern(
                ctx,
                *name,
                *binding,
                target_value,
                target_ty,
                depth,
                Span { file: 0, line: 0, col: 0 },
            ),
            MatchPattern::Pattern(p) => match p {
                Pattern::Binding { name, .. } => {
                    let mut b: Vec<(SymbolId, ConstValue)> = Vec::new();
                    b.push((*name, target_value.copy()));
                    Ok(Some(b))
                },
                Pattern::Ignore => Ok(Some(Vec::new())),
                Pattern::Variant { name, binding } => self.match_variant_pattern(
                    ctx,
                    *name,
                    *binding,
                    target_value,
                    target_ty,
                    depth,
                    Span { file: 0, line: 0, col: 0 },
                ),
                Pattern::Destructure(_) => Err(ConstEvalError),
            },
            MatchPattern::CatchAll => Ok(Some(Vec::new())),
        }
    }

    /// The value of the first arm of a `match` whose pattern the target
    /// matches, with that pattern's bindings in scope.
    fn eval_match(
        &mut self,
        ctx: &SemaContext,
        target: &Expr,
        arms: &Vec<MatchArm>,
        depth: usize,
        span: Span,
    ) -> (r: Result<ConstValue, ConstEvalError>)
        requires
            ctx.wf(),
            old(self).wf(),
            depth <= MAX_CONST_DEPTH,
        ensures
            old(self).keeps(*final(self)),
            pure_sem(ctx.types, old(self).core.substs(), *target, depth + 1) matches Some(Err(_)) ==> r is Err,
            arms@.len() == 0 ==> (pure_sem(ctx.types, old(self).core.substs(), *target, depth + 1) matches Some(Ok(_))
                ==> r is Err && final(self).diags@.last() == (Diagnostic { code: DiagCode::MatchNoArm, span })),
            first_arm_irrefutable(arms@) && pure_sem(ctx.types, old(self).core.substs(), *target, depth + 1) is Some
                && pure_sem(ctx.types, old(self).core.substs(), *target, depth + 1)->0 is Ok ==> (pure_sem(
                ctx.types,
                old(self).core.substs(),
                arms@[0].body,
                depth + 1,
            ) matches Some(res) ==> r == res),
        decreases 101 - depth, 1int,
    {
        let value = match self.eval_inner(ctx, target, depth + 1) {
            Ok(v) => v,
            Err(e) => {
                return Err(e);
            },
        };
        let target_ty = self.resolved_type(ctx, target.ty);
        let mut a: usize = 0;
        while a < arms.len()
            invariant
                ctx.wf(),
                self.wf(),
                old(self).keeps(*self),
                depth <= MAX_CONST_DEPTH,
                a <= arms@.len(),
                first_arm_irrefutable(arms@) && (pure_sem(ctx.types, old(self).core.substs(), *target, depth + 1) matches Some(Ok(_))) ==> a == 0,
                !(pure_sem(ctx.types, old(self).core.substs(), *target, depth + 1) matches Some(Err(_))),
            decreases arms@.len() - a,
        {
            let arm = &arms[a];
            let mut found: Option<Vec<(SymbolId, ConstValue)>> = None;
            let mut binds_type = false;
            let mut p: usize = 0;
            while p < arm.patterns.len()
                invariant_except_break
                    a == 0 && first_arm_irrefutable(arms@) && (pure_sem(ctx.types, old(self).core.substs(), *target, depth + 1) matches Some(Ok(_))) ==> p == 0 && found is None,
                invariant
                    ctx.wf(),
                    self.wf(),
                    old(self).keeps(*self),
                    depth <= MAX_CONST_DEPTH,
                    p <= arm.patterns@.len(),
                    a < arms@.len(),
                    *arm == arms@[a as int],
                    self.core.substs() == old(self).core.substs(),
                    first_arm_irrefutable(arms@) && (pure_sem(ctx.types, old(self).core.substs(), *target, depth + 1) matches Some(Ok(_))) ==> a == 0,
                    !(pure_sem(ctx.types, old(self).core.substs(), *target, depth + 1) matches Some(Err(_))),
                ensures
                    a == 0 && first_arm_irrefutable(arms@) && (pure_sem(ctx.types, old(self).core.substs(), *target, depth + 1) matches Some(Ok(_))) ==> found is Some,
                decreases arm.patterns@.len() - p,
            {
                let ghost before = *self;
                let m = self.match_pattern(ctx, &arm.patterns[p], &value, target_ty, depth + 1);
                proof {
                    lemma_prefix_trans(old(self).diags@, before.diags@, self.diags@);
                }
                match m {
                    Ok(Some(b)) => {
                        binds_type = match &arm.patterns[p] {
                            MatchPattern::Pattern(Pattern::Binding { .. }) => true,
                            _ => false,
                        };
                        found = Some(b);
                        break;
                    },
                    Ok(None) => {},
                    Err(e) => {
                        return Err(e);
                    },
                }
                p = p + 1;
            }
            if let Some(bindings) = found {
                let ghost substs = self.core.substs();
                let ghost d1 = self.diags@;
                self.core.push_local_scope();
                let mut k: usize = 0;
                while k < bindings.len()
                    invariant
                        self.core.wf(),
                        self.core.substs() == substs,
                        self.const_scopes@ == old(self).const_scopes@,
                        self.diags@ == d1,
                        k <= bindings@.len(),
                        a < arms@.len(),
                        *arm == arms@[a as int],
                        first_arm_irrefutable(arms@) && (pure_sem(ctx.types, old(self).core.substs(), *target, depth + 1) matches Some(Ok(_))) ==> a == 0,
                        !(pure_sem(ctx.types, old(self).core.substs(), *target, depth + 1) matches Some(Err(_))),
                    decreases bindings@.len() - k,
                {
                    let (name, v) = (bindings[k].0, bindings[k].1.copy());
                    self.core.define_local(name, v);
                    if binds_type {
                        self.core.define_local_type(name, target_ty);
                    }
                    k = k + 1;
                }
                let r = self.eval_inner(ctx, &arm.body, depth + 1);
                self.core.pop_local_scope();
                proof {
                    lemma_prefix_trans(old(self).diags@, d1, self.diags@);
                }
                return r;
            }
            a = a + 1;
        }
        let ghost before = self.diags@;
        self.emit(DiagCode::MatchNoArm, span);
        proof {
            crate::simd::lemma_prefix_append(before, seq![Diagnostic { code: DiagCode::MatchNoArm, span }]);
            lemma_prefix_trans(old(self).diags@, before, self.diags@);
        }
        Err(ConstEvalError)
    }
}

impl ConstEvaluator {
    /// Calls the function `def_id` with `arg_values` during constant
    /// evaluation: a `const fn` (or any function, where non-const calls are
    /// allowed) with a body, its generic parameters bound to `generic_args`;
    /// its value is what it returns, or else its body's value.
    pub fn invoke_function(
        &mut self,
        ctx: &SemaContext,
        def_id: DefId,
        generic_args: &Vec<GenericArg>,
        arg_values: Vec<ConstValue>,
        depth: usize,
        span: Span,
    ) -> (r: Result<ConstValue, ConstEvalError>)
        requires
            ctx.wf(),
            old(self).wf(),
            depth <= MAX_CONST_DEPTH,
        ensures
            old(self).keeps(*final(self)),
            old(self).invoked(*final(self), *ctx, def_id, generic_args@, arg_values@.len() as int, depth as int, span, r),
        decreases 101 - depth, 0int,
    {
        if def_id as usize >= ctx.defs.len() {
            return Err(ConstEvalError);
        }
        let f = match &ctx.defs[def_id as usize] {
            Def::Function(f) => f,
            _ => {
                return Err(ConstEvalError);
            },
        };
        if f.generics.len() != 0 && generic_args.len() != f.generics.len() {
            self.emit(DiagCode::GenericArgsUnresolved, span);
            return Err(ConstEvalError);
        }
        if arg_values.len() != f.params.len() {
            self.emit(DiagCode::ArgCountMismatch, span);
            return Err(ConstEvalError);
        }
        if f.is_extern {
            self.emit(DiagCode::ExternConstFnUnsupported, span);
            return Err(ConstEvalError);
        }
        if !f.is_const && !self.core.allows_non_const_calls() {
            self.emit(DiagCode::OnlyConstFnCallable, span);
            return Err(ConstEvalError);
        }
        let prev_depth = self.core.current_function_depth();
        if prev_depth == usize::MAX {
            return Err(ConstEvalError);
        }
        let owner = ctx.def_owner_scope(def_id);
        if let Some(s) = owner {
            self.const_scopes.push(s);
        }
        let mut generic_map: Vec<(SymbolId, GenericArg)> = Vec::new();
        let mut k: usize = f.generics.len();
        while k > 0
            invariant
                k <= f.generics@.len(),
                f.generics@.len() == 0 || f.generics@.len() == generic_args@.len(),
                generic_map@ =~= Seq::new(
                    (f.generics@.len() - k) as nat,
                    |i: int| (f.generics@[f.generics@.len() - 1 - i], generic_args@[f.generics@.len() - 1 - i]),
                ),
            decreases k,
        {
            k = k - 1;
            generic_map.push((f.generics[k], generic_args[k]));
        }
        let pushed_map = generic_map.len() != 0;
        let ghost substs0 = self.core.substs();
        let ghost gm = generic_map@;
        if pushed_map {
            self.core.push_type_subst(generic_map);
        }
        let (param_tys, return_ty) = signature_types(ctx, &f.sig);
        let _ = self.core.replace_function_depth(prev_depth + 1);
        let saved_loop_depth = self.core.replace_loop_depth(0);
        let saved_loop_control = self.core.loop_control();
        self.core.set_loop_control(None);
        self.core.push_local_scope();
        let ghost cs = self.const_scopes@;
        let mut i: usize = 0;
        while i < f.params.len()
            invariant
                self.core.wf(),
                self.const_scopes@ == cs,
                self.core.returned() == old(self).core.returned(),
                self.diags@ == old(self).diags@,
                arg_values@.len() == f.params@.len(),
                i <= f.params@.len(),
                self.core.substs() == (if pushed_map {
                    substs0.push(gm)
                } else {
                    substs0
                }),
            decreases f.params@.len() - i,
        {
            let p = &f.params[i];
            let ty = if i < param_tys.len() {
                param_tys[i]
            } else {
                TY_ERROR
            };
            self.core.define_local(p.name, arg_values[i].copy());
            self.core.define_local_type(p.name, ty);
            self.core.define_local_mutability(p.name, p.is_mut);
            i = i + 1;
        }
        let saved_return = self.core.take_return_value();
        self.core.push_return_type(return_ty);
        let ghost d0 = self.diags@;
        let body_result = match &f.body {
            Some(body) => self.eval_inner(ctx, body, depth + 1),
            None => {
                self.emit(DiagCode::ConstFnWithoutBody, span);
                Err(ConstEvalError)
            },
        };
        self.core.pop_return_type();
        let fn_return = self.core.take_return_value();
        self.core.restore_return_value(saved_return);
        self.core.pop_local_scope();
        let _ = self.core.replace_loop_depth(saved_loop_depth);
        self.core.set_loop_control(saved_loop_control);
        let _ = self.core.replace_function_depth(prev_depth);
        if pushed_map {
            self.core.pop_type_subst();
        }
        if owner.is_some() {
            let _ = self.const_scopes.pop();
            proof {
                assert(old(self).const_scopes@.push(owner->0).drop_last() =~= old(self).const_scopes@);
            }
        }
        proof {
            lemma_prefix_trans(old(self).diags@, d0, self.diags@);
            assert(substs0.push(gm).drop_last() =~= substs0);
        }
        match body_result {
            Ok(v) => match fn_return {
                Some(rv) => Ok(rv),
                None => Ok(v),
            },
            Err(e) => Err(e),
        }
    }
}

impl ConstEvaluator {
    /// Calls the function `def_id` with `arg_values` from outside any
    /// evaluation.
    pub fn eval_function(
        &mut self,
        ctx: &SemaContext,
        def_id: DefId,
        generic_args: &Vec<GenericArg>,
        arg_values: Vec<ConstValue>,
        span: Span,
    ) -> (r: Result<ConstValue, ConstEvalError>)
        requires
            ctx.wf(),
            old(self).wf(),
        ensures
            old(self).keeps(*final(self)),
            old(self).invoked(*final(self), *ctx, def_id, generic_args@, arg_values@.len() as int, 0, span, r),
    {
        self.invoke_function(ctx, def_id, generic_args, arg_values, 0, span)
    }
}

/// The parameter and return types of a function's resolved signature, where
/// it has one; no parameter types and the error type otherwise.
/// The parameter and return types of the signature `sig`: those of the
/// function type it names; none and the error type otherwise.
pub open spec fn sig_types_spec(types: TypeRegistry, sig: Option<TypeId>) -> (Seq<TypeId>, TypeId) {
    match sig {
        Some(t) => if types.valid(t) {
            match types.kind(types.norm(t)) {
                TypeKind::Function { params, ret, .. } => (params@, ret),
                _ => (Seq::empty(), TY_ERROR),
            }
        } else {
            (Seq::empty(), TY_ERROR)
        },
        None => (Seq::empty(), TY_ERROR),
    }
}

fn signature_types(ctx: &SemaContext, sig: &Option<TypeId>) -> (r: (Vec<TypeId>, TypeId))
    requires
        ctx.wf(),
    ensures
        r.0@ == sig_types_spec(ctx.types, *sig).0,
        r.1 == sig_types_spec(ctx.types, *sig).1,
{
    match sig {
        Some(t) => {
            if (*t as usize) < ctx.types.num_types() {
                let n = ctx.types.normalize(*t);
                match ctx.types.get(n) {
                    TypeKind::Function { params, ret, .. } => (crate::subst::copy_ids(params), *ret),
                    _ => (Vec::new(), TY_ERROR),
                }
            } else {
                (Vec::new(), TY_ERROR)
            }
        },
        None => (Vec::new(), TY_ERROR),
    }
}

/// `i` is the first variant of `vs` named `name`.
pub open spec fn first_variant(vs: Seq<EnumVariant>, name: SymbolId, i: int) -> bool {
    &&& 0 <= i < vs.len()
    &&& vs[i].name == name
    &&& forall|j: int| 0 <= j < i ==> (#[trigger] vs[j]).name != name
}

/// No variant of `vs` up to `i` is given an explicit value.
pub open spec fn implicit_upto(vs: Seq<EnumVariant>, i: int) -> bool {
    forall|j: int| 0 <= j <= i ==> (#[trigger] vs[j]).value is None
}

/// No variant of `vs` carries a payload.
pub open spec fn payload_free(vs: Seq<EnumVariant>) -> bool {
    forall|j: int| 0 <= j < vs.len() ==> (#[trigger] vs[j]).payload is None
}

/// The variants of the enum definition `d`, where it is one.
pub open spec fn enum_variants(ctx: SemaContext, d: DefId) -> Option<Seq<EnumVariant>> {
    if d < ctx.defs@.len() {
        match ctx.defs@[d as int] {
            Def::Enum { variants, .. } => Some(variants@),
            _ => None,
        }
    } else {
        None
    }
}

/// The position of the first variant of `vs` named `n`.
pub open spec fn variant_index(vs: Seq<EnumVariant>, n: SymbolId) -> Option<int> {
    if exists|i: int| first_variant(vs, n, i) {
        Some(choose|i: int| first_variant(vs, n, i))
    } else {
        None
    }
}

/// The variant name written as the scalar form of an enum initializer.
pub open spec fn ctor_name(e: Expr) -> Option<SymbolId> {
    match e.kind {
        ExprKind::Identifier(n) => Some(n),
        ExprKind::EnumLiteral(n) => Some(n),
        _ => None,
    }
}

/// The tag of an enum constant.
pub open spec fn value_tag(v: ConstValue) -> i128 {
    match v {
        ConstValue::Int(t) => t,
        ConstValue::Enum { tag, .. } => tag,
        _ => 0,
    }
}

pub proof fn lemma_variant_index_of(vs: Seq<EnumVariant>, n: SymbolId, i: int)
    requires
        first_variant(vs, n, i),
    ensures
        variant_index(vs, n) == Some(i),
{
    let k = choose|k: int| first_variant(vs, n, k);
    assert(first_variant(vs, n, k));
    if k < i {
        assert(vs[k].name != n);
    } else if i < k {
        assert(vs[i].name != n);
    }
}

impl ConstEvaluator {
    /// The value of the initializer `literal` of the enum definition
    /// `def_id`: `Type.{ Variant }` gives the variant's tag, as an integer
    /// where no variant of the enum carries a payload; `Type.{ Variant: v }`
    /// gives the tag with the value `v` as payload. A payload variant without
    /// a payload, a payload for a variant that takes none, more or fewer than
    /// one variant, and any other form are reported.
    fn eval_named_enum_data_init(
        &mut self,
        ctx: &SemaContext,
        def_id: DefId,
        literal: &DataLiteral,
        depth: usize,
        span: Span,
    ) -> (r: Result<ConstValue, ConstEvalError>)
        requires
            ctx.wf(),
            old(self).wf(),
            depth <= MAX_CONST_DEPTH,
        ensures
            old(self).keeps(*final(self)),
            enum_variants(*ctx, def_id) is None ==> r is Err && *final(self) == *old(self),
            enum_variants(*ctx, def_id) matches Some(vs) ==> match *literal {
                DataLiteral::Scalar(inner) => match ctor_name(*inner) {
                    None => r is Err && final(self).diags@ == old(self).diags@.push(
                        Diagnostic { code: DiagCode::EnumCtorExpectsName, span },
                    ),
                    Some(n) => match variant_index(vs, n) {
                        None => r is Err,
                        Some(i) => if vs[i].payload is Some {
                            r is Err && final(self).diags@.last() == (Diagnostic {
                                code: DiagCode::VariantNeedsPayload,
                                span: inner.span,
                            })
                        } else {
                            &&& r matches Ok(v) && (payload_free(vs) ==> v is Int) && (!payload_free(vs) ==> (v matches ConstValue::Enum { payload: None, .. }))
                                && (implicit_upto(vs, i) ==> value_tag(v) == i)
                        },
                    },
                },
                DataLiteral::Struct(fields) => if fields@.len() != 1 {
                    r is Err && final(self).diags@ == old(self).diags@.push(
                        Diagnostic { code: DiagCode::EnumInitOneVariant, span },
                    )
                } else {
                    match variant_index(vs, fields@[0].name) {
                        None => r is Err,
                        Some(i) => if vs[i].payload is None {
                            r is Err && final(self).diags@.last() == (Diagnostic {
                                code: DiagCode::VariantTakesNoPayload,
                                span: fields@[0].span,
                            })
                        } else {
                            r matches Ok(v) ==> (v matches ConstValue::Enum { payload: Some(_), .. }) && (implicit_upto(
                                vs,
                                i,
                            ) ==> value_tag(v) == i)
                        },
                    }
                },
                _ => r is Err && final(self).diags@ == old(self).diags@.push(
                    Diagnostic { code: DiagCode::InvalidEnumInit, span },
                ),
            },
        decreases 101 - depth, 2int,
    {
        proof {
            crate::traits::lemma_prefix_refl(self.diags@);
        }
        if (def_id as usize) >= ctx.defs.len() {
            return Err(ConstEvalError);
        }
        let variants = match &ctx.defs[def_id as usize] {
            Def::Enum { variants, .. } => variants,
            _ => {
                return Err(ConstEvalError);
            },
        };
        match literal {
            DataLiteral::Scalar(inner) => {
                let name = match self.enum_ctor_variant_name(inner, span) {
                    Some(n) => n,
                    None => {
                        proof {
                            assert(old(self).diags@.is_prefix_of(self.diags@)) by {
                                assert(old(self).diags@ =~= self.diags@.subrange(0, old(self).diags@.len() as int));
                            }
                        }
                        return Err(ConstEvalError);
                    },
                };
                let (i, tag) = match self.named_enum_variant_and_tag(ctx, variants, name, depth, span) {
                    Some(x) => x,
                    None => {
                        return Err(ConstEvalError);
                    },
                };
                proof {
                    lemma_variant_index_of(variants@, name, i as int);
                }
                if variants[i].payload.is_some() {
                    let ghost before = *self;
                    self.emit(DiagCode::VariantNeedsPayload, inner.span);
                    proof {
                        assert(before.diags@.is_prefix_of(self.diags@)) by {
                            assert(before.diags@ =~= self.diags@.subrange(0, before.diags@.len() as int));
                        }
                        lemma_prefix_trans(old(self).diags@, before.diags@, self.diags@);
                    }
                    return Err(ConstEvalError);
                }
                let mut all_free = true;
                let mut j: usize = 0;
                while j < variants.len()
                    invariant
                        j <= variants@.len(),
                        all_free <==> forall|k: int| 0 <= k < j ==> (#[trigger] variants@[k]).payload is None,
                    decreases variants@.len() - j,
                {
                    if variants[j].payload.is_some() {
                        all_free = false;
                    }
                    j = j + 1;
                }
                if all_free {
                    Ok(ConstValue::Int(tag))
                } else {
                    Ok(ConstValue::Enum { tag, payload: None })
                }
            },
            DataLiteral::Struct(fields) => {
                if fields.len() != 1 {
                    self.emit(DiagCode::EnumInitOneVariant, span);
                    proof {
                        assert(old(self).diags@.is_prefix_of(self.diags@)) by {
                            assert(old(self).diags@ =~= self.diags@.subrange(0, old(self).diags@.len() as int));
                        }
                    }
                    return Err(ConstEvalError);
                }
                let init = &fields[0];
                let (i, tag) = match self.named_enum_variant_and_tag(ctx, variants, init.name, depth, init.span) {
                    Some(x) => x,
                    None => {
                        return Err(ConstEvalError);
                    },
                };
                proof {
                    lemma_variant_index_of(variants@, init.name, i as int);
                }
                if variants[i].payload.is_none() {
                    let ghost before = *self;
                    self.emit(DiagCode::VariantTakesNoPayload, init.span);
                    proof {
                        assert(before.diags@.is_prefix_of(self.diags@)) by {
                            assert(before.diags@ =~= self.diags@.subrange(0, before.diags@.len() as int));
                        }
                        lemma_prefix_trans(old(self).diags@, before.diags@, self.diags@);
                    }
                    return Err(ConstEvalError);
                }
                let ghost before = *self;
                let payload = match self.eval_inner(ctx, &init.value, depth + 1) {
                    Ok(v) => v,
                    Err(e) => {
                        proof {
                            lemma_prefix_trans(old(self).diags@, before.diags@, self.diags@);
                        }
                        return Err(e);
                    },
                };
                proof {
                    lemma_prefix_trans(old(self).diags@, before.diags@, self.diags@);
                }
                Ok(ConstValue::Enum { tag, payload: Some(Box::new(payload)) })
            },
            _ => {
                self.emit(DiagCode::InvalidEnumInit, span);
                proof {
                    assert(old(self).diags@.is_prefix_of(self.diags@)) by {
                        assert(old(self).diags@ =~= self.diags@.subrange(0, old(self).diags@.len() as int));
                    }
                }
                Err(ConstEvalError)
            },
        }
    }

    /// The variant name the scalar form of an enum initializer gives: a
    /// bare name or `.Variant`; anything else is reported at `span`.
    fn enum_ctor_variant_name(&mut self, inner: &Expr, span: Span) -> (r: Option<SymbolId>)
        ensures
            r == (match inner.kind {
                ExprKind::Identifier(n) => Some(n),
                ExprKind::EnumLiteral(n) => Some(n),
                _ => None,
            }),
            r is Some ==> *final(self) == *old(self),
            r is None ==> final(self).diags@ == old(self).diags@.push(
                Diagnostic { code: DiagCode::EnumCtorExpectsName, span },
            ) && final(self).core == old(self).core && final(self).const_scopes == old(self).const_scopes,
    {
        match &inner.kind {
            ExprKind::Identifier(n) => Some(*n),
            ExprKind::EnumLiteral(n) => Some(*n),
            _ => {
                self.emit(DiagCode::EnumCtorExpectsName, span);
                None
            },
        }
    }

    /// The first variant of `variants` named `variant_name`, by position, and
    /// its tag: the last explicit value before it, or zero, counted on by
    /// one per variant. A missing variant is reported at `span`.
    fn named_enum_variant_and_tag(
        &mut self,
        ctx: &SemaContext,
        variants: &Vec<EnumVariant>,
        variant_name: SymbolId,
        depth: usize,
        span: Span,
    ) -> (r: Option<(usize, i128)>)
        requires
            ctx.wf(),
            old(self).wf(),
            depth <= MAX_CONST_DEPTH,
        ensures
            old(self).keeps(*final(self)),
            r matches Some((i, t)) ==> first_variant(variants@, variant_name, i as int) && (implicit_upto(
                variants@,
                i as int,
            ) ==> t == i),
            r is None ==> (forall|j: int| 0 <= j < variants@.len() ==> (#[trigger] variants@[j]).name != variant_name)
                && final(self).diags@.last() == (Diagnostic { code: DiagCode::VariantNotFound, span }),
        decreases 101 - depth, 1int,
    {
        proof {
            crate::traits::lemma_prefix_refl(self.diags@);
        }
        let mut current: i128 = 0;
        let mut i: usize = 0;
        while i < variants.len()
            invariant
                ctx.wf(),
                self.wf(),
                old(self).keeps(*self),
                depth <= MAX_CONST_DEPTH,
                i <= variants@.len(),
                forall|j: int| 0 <= j < i ==> (#[trigger] variants@[j]).name != variant_name,
                implicit_upto(variants@, i as int - 1) ==> current == i,
            decreases variants@.len() - i,
        {
            if let Some(value) = &variants[i].value {
                let ghost before = *self;
                if let Ok(ConstValue::Int(v)) = self.eval_nested(ctx, value, depth) {
                    current = v;
                }
                proof {
                    lemma_prefix_trans(old(self).diags@, before.diags@, self.diags@);
                }
            }
            if variants[i].name == variant_name {
                return Some((i, current));
            }
            current = current.wrapping_add(1);
            i = i + 1;
        }
        let ghost before = *self;
        self.emit(DiagCode::VariantNotFound, span);
        proof {
            assert(before.diags@.is_prefix_of(self.diags@)) by {
                assert(before.diags@ =~= self.diags@.subrange(0, before.diags@.len() as int));
            }
            lemma_prefix_trans(old(self).diags@, before.diags@, self.diags@);
        }
        None
    }
}

} // verus!
