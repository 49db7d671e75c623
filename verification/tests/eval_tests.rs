use kernc_sema::arith::{eval_const_int_division, eval_const_int_modulo, eval_const_int_shift, ConstArithmeticError};
use kernc_sema::ast::{BinaryOperator, DataLiteral, Expr, ExprKind, LetElse, Pattern, Span, UnaryOperator, AssignmentOperator};
use kernc_sema::context::{DiagCode, SemaContext, Scope, SymbolInfo, SymbolKind, Def, FunctionDef, Param};
use kernc_sema::eval::{const_binary_op, ConstEvaluator};
use kernc_sema::eval_state::ConstEvalError;
use kernc_sema::types::{TypeKind, TypeRegistry, TY_BOOL, TY_ERROR, TY_I32, TY_I64, TY_I8, TY_NEVER, TY_U8, TY_U32, TY_USIZE};
use kernc_sema::value::{ConstBinaryOp, ConstValue};

fn sp(line: u32) -> Span {
    Span { file: 0, line, col: 1 }
}

fn ctx() -> SemaContext {
    SemaContext {
        types: TypeRegistry::new(8),
        defs: Vec::new(),
        scopes: vec![Scope { parent: None, module: None, symbols: Vec::new() }],
        current_scope: Some(0),
        diags: Vec::new(),
        max_atomic_bits: 64,
    }
}

fn lit(v: u128, ty: u32) -> Expr {
    Expr { span: sp(1), ty, kind: ExprKind::Integer(v) }
}

fn bin(l: Expr, op: BinaryOperator, r: Expr, ty: u32) -> Expr {
    Expr { span: sp(2), ty, kind: ExprKind::Binary { lhs: Box::new(l), op, rhs: Box::new(r) } }
}

fn eval(ctx: &SemaContext, e: &Expr) -> (Result<ConstValue, ConstEvalError>, Vec<DiagCode>) {
    let mut ev = ConstEvaluator::new();
    let r = ev.eval_const_value(ctx, e);
    (r, ev.diags.iter().map(|d| d.code).collect())
}

fn as_int(r: &Result<ConstValue, ConstEvalError>) -> Option<i128> {
    match r {
        Ok(ConstValue::Int(v)) => Some(*v),
        _ => None,
    }
}

#[test]
fn adds_typed_integers() {
    let c = ctx();
    let e = bin(lit(1, TY_I32), BinaryOperator::Add, lit(2, TY_I32), TY_I32);
    let (r, d) = eval(&c, &e);
    assert_eq!(as_int(&r), Some(3));
    assert!(d.is_empty());
}

#[test]
fn division_by_zero_is_reported() {
    let c = ctx();
    let e = bin(lit(7, TY_I32), BinaryOperator::Divide, lit(0, TY_I32), TY_I32);
    let (r, d) = eval(&c, &e);
    assert!(r.is_err());
    assert_eq!(d, vec![DiagCode::DivisionByZero]);
}

#[test]
fn literal_out_of_range_for_u8() {
    let c = ctx();
    let (r, d) = eval(&c, &lit(300, TY_U8));
    assert!(r.is_err());
    assert_eq!(d, vec![DiagCode::LiteralOutOfRange]);
    let (r, d) = eval(&c, &lit(255, TY_U8));
    assert_eq!(as_int(&r), Some(255));
    assert!(d.is_empty());
}

#[test]
fn negative_literal_for_unsigned_is_refused() {
    let c = ctx();
    let e = Expr {
        span: sp(3),
        ty: TY_U32,
        kind: ExprKind::Unary { op: UnaryOperator::Negate, operand: Box::new(lit(1, TY_U32)) },
    };
    let (r, d) = eval(&c, &e);
    assert!(r.is_err());
    assert_eq!(d, vec![DiagCode::NegativeToUnsigned]);
}

#[test]
fn signed_literal_bounds() {
    let c = ctx();
    let neg128 = Expr {
        span: sp(3),
        ty: TY_I8,
        kind: ExprKind::Unary { op: UnaryOperator::Negate, operand: Box::new(lit(128, TY_I8)) },
    };
    assert_eq!(as_int(&eval(&c, &neg128).0), Some(-128));
    let (r, d) = eval(&c, &lit(128, TY_I8));
    assert!(r.is_err());
    assert_eq!(d, vec![DiagCode::LiteralOutOfRange]);
}

#[test]
fn unsigned_arithmetic_wraps_to_width() {
    let c = ctx();
    let e = bin(lit(200, TY_U8), BinaryOperator::Add, lit(100, TY_U8), TY_U8);
    assert_eq!(as_int(&eval(&c, &e).0), Some(44));
}

#[test]
fn signed_overflow_is_refused() {
    let c = ctx();
    let e = bin(lit(100, TY_I8), BinaryOperator::Add, lit(100, TY_I8), TY_I8);
    let (r, d) = eval(&c, &e);
    assert!(r.is_err());
    assert_eq!(d, vec![DiagCode::LiteralOutOfRange]);
}

#[test]
fn cast_keeps_low_bits() {
    let c = ctx();
    let e = Expr { span: sp(4), ty: TY_U8, kind: ExprKind::As { lhs: Box::new(lit(300, TY_I32)) } };
    assert_eq!(as_int(&eval(&c, &e).0), Some(44));
}

#[test]
fn bool_cast_is_refused() {
    let c = ctx();
    let b = Expr { span: sp(1), ty: TY_BOOL, kind: ExprKind::Bool(true) };
    let e = Expr { span: sp(4), ty: TY_U8, kind: ExprKind::As { lhs: Box::new(b) } };
    let (r, d) = eval(&c, &e);
    assert!(r.is_err());
    assert_eq!(d, vec![DiagCode::OnlyIntegerCasts]);
}

#[test]
fn comparison_and_conditional() {
    let c = ctx();
    let cond = bin(lit(3, TY_I32), BinaryOperator::LessThan, lit(5, TY_I32), TY_BOOL);
    let e = Expr {
        span: sp(5),
        ty: TY_I32,
        kind: ExprKind::If {
            cond: Box::new(cond),
            then_branch: Box::new(lit(10, TY_I32)),
            else_branch: Some(Box::new(lit(20, TY_I32))),
        },
    };
    assert_eq!(as_int(&eval(&c, &e).0), Some(10));
}

#[test]
fn non_bool_condition_is_refused() {
    let c = ctx();
    let e = Expr {
        span: sp(5),
        ty: TY_I32,
        kind: ExprKind::If { cond: Box::new(lit(1, TY_I32)), then_branch: Box::new(lit(10, TY_I32)), else_branch: None },
    };
    let (r, d) = eval(&c, &e);
    assert!(r.is_err());
    assert_eq!(d, vec![DiagCode::IfConditionNotBool]);
}

#[test]
fn array_literal_and_index() {
    let c = ctx();
    let arr = Expr {
        span: sp(6),
        ty: TY_ERROR,
        kind: ExprKind::DataInit {
            literal: DataLiteral::Array(vec![lit(4, TY_I32), lit(5, TY_I32), lit(6, TY_I32)]),
            typed: false,
        },
    };
    let e = Expr {
        span: sp(7),
        ty: TY_I32,
        kind: ExprKind::IndexAccess { lhs: Box::new(arr), index: Box::new(lit(2, TY_USIZE)) },
    };
    assert_eq!(as_int(&eval(&c, &e).0), Some(6));
}

#[test]
fn index_out_of_bounds() {
    let c = ctx();
    let arr = Expr {
        span: sp(6),
        ty: TY_ERROR,
        kind: ExprKind::DataInit { literal: DataLiteral::Array(vec![lit(4, TY_I32)]), typed: false },
    };
    let e = Expr {
        span: sp(7),
        ty: TY_I32,
        kind: ExprKind::IndexAccess { lhs: Box::new(arr), index: Box::new(lit(3, TY_USIZE)) },
    };
    let (r, d) = eval(&c, &e);
    assert!(r.is_err());
    assert_eq!(d, vec![DiagCode::IndexOutOfBounds]);
}

#[test]
fn block_with_mutable_local_and_loop() {
    // { let mut i = 0; let mut s = 0; while i < 5 { s += i; i += 1; } s }
    let c = ctx();
    let i_sym = 10;
    let s_sym = 11;
    let id = |n: u32| Expr { span: sp(8), ty: TY_I32, kind: ExprKind::Identifier(n) };
    let let_i = Expr {
        span: sp(8),
        ty: TY_ERROR,
        kind: ExprKind::Let { pattern: Pattern::Binding { name: i_sym, is_mut: true }, init: Box::new(lit(0, TY_I32)), else_clause: None },
    };
    let let_s = Expr {
        span: sp(8),
        ty: TY_ERROR,
        kind: ExprKind::Let { pattern: Pattern::Binding { name: s_sym, is_mut: true }, init: Box::new(lit(0, TY_I32)), else_clause: None },
    };
    let add_s = Expr {
        span: sp(9),
        ty: TY_ERROR,
        kind: ExprKind::Assign { lhs: Box::new(id(s_sym)), op: AssignmentOperator::AddAssign, rhs: Box::new(id(i_sym)) },
    };
    let inc_i = Expr {
        span: sp(9),
        ty: TY_ERROR,
        kind: ExprKind::Assign { lhs: Box::new(id(i_sym)), op: AssignmentOperator::AddAssign, rhs: Box::new(lit(1, TY_I32)) },
    };
    let body = Expr { span: sp(9), ty: TY_ERROR, kind: ExprKind::Block { stmts: vec![add_s, inc_i], result: None } };
    let cond = bin(id(i_sym), BinaryOperator::LessThan, lit(5, TY_I32), TY_BOOL);
    let wh = Expr { span: sp(9), ty: TY_ERROR, kind: ExprKind::While { cond: Box::new(cond), body: Box::new(body) } };
    let block = Expr {
        span: sp(10),
        ty: TY_I32,
        kind: ExprKind::Block { stmts: vec![let_i, let_s, wh], result: Some(Box::new(id(s_sym))) },
    };
    let (r, d) = eval(&c, &block);
    assert_eq!(as_int(&r), Some(10));
    assert!(d.is_empty());
}

#[test]
fn assignment_to_immutable_local_is_refused() {
    let c = ctx();
    let x = 12;
    let let_x = Expr {
        span: sp(8),
        ty: TY_ERROR,
        kind: ExprKind::Let { pattern: Pattern::Binding { name: x, is_mut: false }, init: Box::new(lit(1, TY_I32)), else_clause: None },
    };
    let assign = Expr {
        span: sp(11),
        ty: TY_ERROR,
        kind: ExprKind::Assign {
            lhs: Box::new(Expr { span: sp(11), ty: TY_I32, kind: ExprKind::Identifier(x) }),
            op: AssignmentOperator::Assign,
            rhs: Box::new(lit(2, TY_I32)),
        },
    };
    let block = Expr { span: sp(12), ty: TY_ERROR, kind: ExprKind::Block { stmts: vec![let_x, assign], result: None } };
    let (r, d) = eval(&c, &block);
    assert!(r.is_err());
    assert_eq!(d, vec![DiagCode::AssignImmutable]);
}

#[test]
fn global_constant_is_read_through_its_symbol() {
    let mut c = ctx();
    c.defs.push(Def::Global { value: bin(lit(6, TY_I64), BinaryOperator::Multiply, lit(7, TY_I64), TY_I64) });
    c.scopes[0].symbols.push((
        20,
        SymbolInfo { kind: SymbolKind::Const, def_id: Some(0), type_id: TY_I64, is_mut: false },
    ));
    let e = Expr { span: sp(13), ty: TY_I64, kind: ExprKind::Identifier(20) };
    assert_eq!(as_int(&eval(&c, &e).0), Some(42));
}

#[test]
fn undeclared_and_non_constant_identifiers() {
    let mut c = ctx();
    c.scopes[0].symbols.push((
        21,
        SymbolInfo { kind: SymbolKind::Var, def_id: None, type_id: TY_I32, is_mut: true },
    ));
    let (_, d) = eval(&c, &Expr { span: sp(14), ty: TY_I32, kind: ExprKind::Identifier(99) });
    assert_eq!(d, vec![DiagCode::UndeclaredIdentifier]);
    let (_, d) = eval(&c, &Expr { span: sp(14), ty: TY_I32, kind: ExprKind::Identifier(21) });
    assert_eq!(d, vec![DiagCode::NotCompileTimeConstant(SymbolKind::Var)]);
}

#[test]
fn circular_constant_hits_the_depth_limit() {
    let mut c = ctx();
    c.defs.push(Def::Global { value: Expr { span: sp(15), ty: TY_I32, kind: ExprKind::Identifier(30) } });
    c.scopes[0].symbols.push((
        30,
        SymbolInfo { kind: SymbolKind::Const, def_id: Some(0), type_id: TY_I32, is_mut: false },
    ));
    let (r, d) = eval(&c, &Expr { span: sp(15), ty: TY_I32, kind: ExprKind::Identifier(30) });
    assert!(r.is_err());
    assert_eq!(d, vec![DiagCode::ConstDepthExceeded]);
}

#[test]
fn usize_context_refuses_negative_values() {
    let c = ctx();
    let e = Expr {
        span: sp(16),
        ty: TY_I32,
        kind: ExprKind::Unary { op: UnaryOperator::Negate, operand: Box::new(lit(3, TY_I32)) },
    };
    let mut ev = ConstEvaluator::new();
    assert!(ev.eval_usize(&c, &e).is_err());
    assert_eq!(ev.diags.iter().map(|d| d.code).collect::<Vec<_>>(), vec![DiagCode::NegativeForUsize]);
    let mut ev = ConstEvaluator::new();
    assert_eq!(ev.eval_usize(&c, &lit(16, TY_USIZE)).ok(), Some(16));
    let mut ev = ConstEvaluator::new();
    assert_eq!(ev.eval_math(&c, &e).ok(), Some(-3));
}

#[test]
fn shift_errors_and_results() {
    assert_eq!(eval_const_int_shift(1, 4, true, false), Ok(16));
    assert_eq!(eval_const_int_shift(-16, 2, false, false), Ok(-4));
    assert_eq!(eval_const_int_shift(1, -1, true, false), Err(ConstArithmeticError::NegativeShift));
    assert_eq!(eval_const_int_shift(1, 128, true, false), Err(ConstArithmeticError::ShiftTooLarge));
    assert_eq!(eval_const_int_shift(-1, 120, false, true), Ok(255));
}

#[test]
fn division_and_remainder_truncate_toward_zero() {
    assert_eq!(eval_const_int_division(-7, 2), Ok(-3));
    assert_eq!(eval_const_int_modulo(-7, 2), Ok(-1));
    assert_eq!(eval_const_int_division(i128::MIN, -1), Err(ConstArithmeticError::DivisionOverflow));
    assert_eq!(eval_const_int_modulo(i128::MIN, -1), Err(ConstArithmeticError::ModuloOverflow));
    assert_eq!(eval_const_int_modulo(5, 0), Err(ConstArithmeticError::ModuloByZero));
    // the recomposition law on concrete values
    let (l, r) = (-7i128, 2i128);
    assert_eq!(eval_const_int_division(l, r).unwrap() * r + eval_const_int_modulo(l, r).unwrap(), l);
}

#[test]
fn binary_operator_mapping() {
    assert_eq!(const_binary_op(BinaryOperator::ShiftRight), Some(ConstBinaryOp::ShiftRight));
    assert_eq!(const_binary_op(BinaryOperator::GreaterOrEqual), Some(ConstBinaryOp::GreaterOrEqual));
}

#[test]
fn add_then_subtract_restores_on_wraparound() {
    let c = ctx();
    let big = bin(lit(i128::MAX as u128, TY_ERROR), BinaryOperator::Add, lit(5, TY_ERROR), TY_ERROR);
    let back = bin(big, BinaryOperator::Subtract, lit(5, TY_ERROR), TY_ERROR);
    assert_eq!(as_int(&eval(&c, &back).0), Some(i128::MAX));
}

#[test]
fn simd_type_interning_is_shared() {
    let mut t = TypeRegistry::new(8);
    let a = t.intern(TypeKind::Simd { elem: TY_I32, lanes: 4 });
    let b = t.intern(TypeKind::Simd { elem: TY_I32, lanes: 4 });
    assert_eq!(a, b);
    assert_eq!(t.layout_size(a), Some(16));
}

// ---- const fn calls -----------------------------------------------------------

fn id_expr(name: u32, ty: u32) -> Expr {
    Expr { span: sp(60), ty, kind: ExprKind::Identifier(name) }
}

/// Def 0: `const fn inc(x: i32) -> i32 { x + 1 }`; def 1: the same, not
/// const; def 2: `const fn early() -> i32 { return 7; 9 }`.
fn fn_ctx() -> (SemaContext, u32, u32, u32) {
    let mut c = ctx();
    let sig = c.types.intern(TypeKind::Function { params: vec![TY_I32], ret: TY_I32, is_variadic: false });
    let sig0 = c.types.intern(TypeKind::Function { params: vec![], ret: TY_I32, is_variadic: false });
    let f0 = c.types.intern(TypeKind::FnDef(0, vec![]));
    let f1 = c.types.intern(TypeKind::FnDef(1, vec![]));
    let f2 = c.types.intern(TypeKind::FnDef(2, vec![]));
    let body = || bin(id_expr(5, TY_I32), BinaryOperator::Add, lit(1, TY_I32), TY_I32);
    let mk = |is_const: bool, params: Vec<Param>, body: Expr, sig: u32| {
        Def::Function(FunctionDef {
            name: 40,
            parent: None,
            is_const,
            is_extern: false,
            intrinsic: None,
            generics: vec![],
            params,
            body: Some(body),
            sig: Some(sig),
            where_clauses: vec![],
        })
    };
    let early = Expr {
        span: sp(61),
        ty: TY_I32,
        kind: ExprKind::Block {
            stmts: vec![Expr { span: sp(62), ty: TY_NEVER, kind: ExprKind::Return(Some(Box::new(lit(7, TY_I32)))) }],
            result: Some(Box::new(lit(9, TY_I32))),
        },
    };
    c.defs = vec![
        mk(true, vec![Param { name: 5, is_mut: false }], body(), sig),
        mk(false, vec![Param { name: 5, is_mut: false }], body(), sig),
        mk(true, vec![], early, sig0),
    ];
    (c, f0, f1, f2)
}

fn call(callee_ty: u32, args: Vec<Expr>) -> Expr {
    Expr {
        span: sp(63),
        ty: TY_I32,
        kind: ExprKind::Call { callee: Box::new(id_expr(40, callee_ty)), args },
    }
}

#[test]
fn const_fn_call_evaluates_body() {
    let (c, f0, _, _) = fn_ctx();
    let (r, d) = eval(&c, &call(f0, vec![lit(41, TY_I32)]));
    assert_eq!(as_int(&r), Some(42));
    assert!(d.is_empty());
}

#[test]
fn non_const_fn_is_refused() {
    let (c, _, f1, _) = fn_ctx();
    let (r, d) = eval(&c, &call(f1, vec![lit(41, TY_I32)]));
    assert!(r.is_err());
    assert_eq!(d, vec![DiagCode::OnlyConstFnCallable]);
}

#[test]
fn const_fn_argument_count_checked() {
    let (c, f0, _, _) = fn_ctx();
    let (r, d) = eval(&c, &call(f0, vec![]));
    assert!(r.is_err());
    assert_eq!(d, vec![DiagCode::ArgCountMismatch]);
}

#[test]
fn return_value_wins_over_block_value() {
    let (c, _, _, f2) = fn_ctx();
    let (r, d) = eval(&c, &call(f2, vec![]));
    assert_eq!(as_int(&r), Some(7));
    assert!(d.is_empty());
}

#[test]
fn eval_function_directly() {
    let (c, _, _, _) = fn_ctx();
    let mut ev = ConstEvaluator::new();
    let r = ev.eval_function(&c, 0, &vec![], vec![ConstValue::Int(1)], sp(1));
    assert_eq!(as_int(&r), Some(2));
}

// ---- enum literals and match ------------------------------------------------

use kernc_sema::ast::{MatchArm, MatchPattern};
use kernc_sema::context::EnumVariant;

/// Def 0: `enum { A, B = 10, C }` with variant symbols 71, 72, 73; returns
/// the context and the enum's type.
fn enum_ctx() -> (SemaContext, u32) {
    let mut c = ctx();
    let e = c.types.intern(TypeKind::Enum(0, vec![]));
    c.defs = vec![Def::Enum {
        is_extern: false,
        generics: vec![],
        variants: vec![
            EnumVariant { name: 71, value: None, payload: None },
            EnumVariant { name: 72, value: Some(lit(10, TY_I32)), payload: None },
            EnumVariant { name: 73, value: None, payload: None },
        ],
    }];
    (c, e)
}

fn variant(name: u32, ty: u32) -> Expr {
    Expr { span: sp(70), ty, kind: ExprKind::EnumLiteral(name) }
}

fn arm(patterns: Vec<MatchPattern>, body: Expr) -> MatchArm {
    MatchArm { patterns, body }
}

fn match_expr(target: Expr, arms: Vec<MatchArm>) -> Expr {
    Expr { span: sp(71), ty: TY_I32, kind: ExprKind::Match { target: Box::new(target), arms } }
}

#[test]
fn enum_literal_counts_on_from_explicit_value() {
    let (c, e) = enum_ctx();
    assert_eq!(as_int(&eval(&c, &variant(71, e)).0), Some(0));
    assert_eq!(as_int(&eval(&c, &variant(72, e)).0), Some(10));
    assert_eq!(as_int(&eval(&c, &variant(73, e)).0), Some(11));
}

#[test]
fn unknown_variant_is_reported() {
    let (c, e) = enum_ctx();
    let (r, d) = eval(&c, &variant(99, e));
    assert!(r.is_err());
    assert_eq!(d, vec![DiagCode::VariantNotFound]);
}

#[test]
fn enum_literal_without_enum_type_is_reported() {
    let c = ctx();
    let (r, d) = eval(&c, &variant(71, TY_I32));
    assert!(r.is_err());
    assert_eq!(d, vec![DiagCode::VariantLiteralUnresolved]);
}

#[test]
fn payload_variant_has_no_integer_value() {
    let (mut c, e) = enum_ctx();
    c.defs = vec![Def::Enum {
        is_extern: false,
        generics: vec![],
        variants: vec![EnumVariant { name: 71, value: None, payload: Some(TY_I32) }],
    }];
    let (r, d) = eval(&c, &variant(71, e));
    assert!(r.is_err());
    assert_eq!(d, vec![DiagCode::PayloadVariantAsInteger]);
}

#[test]
fn match_takes_first_matching_arm() {
    let c = ctx();
    let arms = || {
        vec![
            arm(vec![MatchPattern::Value(lit(1, TY_I32))], lit(10, TY_I32)),
            arm(
                vec![MatchPattern::Range { start: lit(3, TY_I32), end: lit(7, TY_I32), inclusive: true }],
                lit(20, TY_I32),
            ),
            arm(vec![MatchPattern::CatchAll], lit(30, TY_I32)),
        ]
    };
    assert_eq!(as_int(&eval(&c, &match_expr(lit(1, TY_I32), arms())).0), Some(10));
    assert_eq!(as_int(&eval(&c, &match_expr(lit(7, TY_I32), arms())).0), Some(20));
    assert_eq!(as_int(&eval(&c, &match_expr(lit(8, TY_I32), arms())).0), Some(30));
}

#[test]
fn exclusive_range_leaves_out_its_end() {
    let c = ctx();
    let arms = vec![
        arm(
            vec![MatchPattern::Range { start: lit(3, TY_I32), end: lit(7, TY_I32), inclusive: false }],
            lit(20, TY_I32),
        ),
        arm(vec![MatchPattern::CatchAll], lit(30, TY_I32)),
    ];
    assert_eq!(as_int(&eval(&c, &match_expr(lit(7, TY_I32), arms)).0), Some(30));
}

#[test]
fn match_without_matching_arm_is_reported() {
    let c = ctx();
    let arms = vec![arm(vec![MatchPattern::Value(lit(1, TY_I32))], lit(10, TY_I32))];
    let (r, d) = eval(&c, &match_expr(lit(9, TY_I32), arms));
    assert!(r.is_err());
    assert_eq!(d, vec![DiagCode::MatchNoArm]);
}

#[test]
fn match_binding_names_the_target() {
    let c = ctx();
    let body = bin(id_expr(77, TY_I32), BinaryOperator::Add, lit(1, TY_I32), TY_I32);
    let arms = vec![arm(vec![MatchPattern::Pattern(Pattern::Binding { name: 77, is_mut: false })], body)];
    let (r, d) = eval(&c, &match_expr(lit(4, TY_I32), arms));
    assert_eq!(as_int(&r), Some(5));
    assert!(d.is_empty());
}

#[test]
fn match_on_enum_variant() {
    let (c, e) = enum_ctx();
    let arms = || {
        vec![
            arm(vec![MatchPattern::Variant { name: 71, binding: None }], lit(1, TY_I32)),
            arm(vec![MatchPattern::Variant { name: 72, binding: None }], lit(2, TY_I32)),
            arm(vec![MatchPattern::CatchAll], lit(3, TY_I32)),
        ]
    };
    assert_eq!(as_int(&eval(&c, &match_expr(variant(72, e), arms())).0), Some(2));
    assert_eq!(as_int(&eval(&c, &match_expr(variant(73, e), arms())).0), Some(3));
}

// ---- enum initializers ------------------------------------------------------

use kernc_sema::ast::FieldInit;

fn data(literal: DataLiteral, ty: u32) -> Expr {
    Expr { span: sp(80), ty, kind: ExprKind::DataInit { literal, typed: true } }
}

/// Def 0: `enum { A, B(i32) }` with variant symbols 71 and 72.
fn payload_enum_ctx() -> (SemaContext, u32) {
    let mut c = ctx();
    let e = c.types.intern(TypeKind::Enum(0, vec![]));
    c.defs = vec![Def::Enum {
        is_extern: false,
        generics: vec![],
        variants: vec![
            EnumVariant { name: 71, value: None, payload: None },
            EnumVariant { name: 72, value: None, payload: Some(TY_I32) },
        ],
    }];
    (c, e)
}

#[test]
fn enum_initializer_of_a_plain_variant() {
    let (c, e) = enum_ctx();
    let init = data(DataLiteral::Scalar(Box::new(variant(73, e))), e);
    let (r, d) = eval(&c, &init);
    assert_eq!(as_int(&r), Some(11));
    assert!(d.is_empty());
}

#[test]
fn enum_initializer_with_payload() {
    let (c, e) = payload_enum_ctx();
    let init = data(
        DataLiteral::Struct(vec![FieldInit { name: 72, value: lit(5, TY_I32), span: sp(81) }]),
        e,
    );
    match eval(&c, &init) {
        (Ok(ConstValue::Enum { tag, payload: Some(p) }), d) => {
            assert_eq!(tag, 1);
            assert!(matches!(*p, ConstValue::Int(5)));
            assert!(d.is_empty());
        },
        _ => panic!("expected an enum constant with a payload"),
    }
    let plain = data(DataLiteral::Scalar(Box::new(variant(71, e))), e);
    assert!(matches!(eval(&c, &plain).0, Ok(ConstValue::Enum { tag: 0, payload: None })));
}

#[test]
fn enum_initializer_errors() {
    let (c, e) = payload_enum_ctx();
    let needs = data(DataLiteral::Scalar(Box::new(variant(72, e))), e);
    assert_eq!(eval(&c, &needs).1, vec![DiagCode::VariantNeedsPayload]);
    let takes_none = data(
        DataLiteral::Struct(vec![FieldInit { name: 71, value: lit(1, TY_I32), span: sp(82) }]),
        e,
    );
    assert_eq!(eval(&c, &takes_none).1, vec![DiagCode::VariantTakesNoPayload]);
    let two = data(
        DataLiteral::Struct(vec![
            FieldInit { name: 71, value: lit(1, TY_I32), span: sp(83) },
            FieldInit { name: 72, value: lit(1, TY_I32), span: sp(84) },
        ]),
        e,
    );
    assert_eq!(eval(&c, &two).1, vec![DiagCode::EnumInitOneVariant]);
    let array = data(DataLiteral::Array(vec![]), e);
    assert_eq!(eval(&c, &array).1, vec![DiagCode::InvalidEnumInit]);
    let not_a_name = data(DataLiteral::Scalar(Box::new(lit(1, TY_I32))), e);
    assert_eq!(eval(&c, &not_a_name).1, vec![DiagCode::EnumCtorExpectsName]);
    let missing = data(DataLiteral::Scalar(Box::new(variant(99, e))), e);
    assert_eq!(eval(&c, &missing).1, vec![DiagCode::VariantNotFound]);
    assert!(eval(&c, &missing).0.is_err());
}

fn block(stmts: Vec<Expr>, result: Option<Expr>) -> Expr {
    Expr { span: sp(90), ty: TY_I32, kind: ExprKind::Block { stmts, result: result.map(Box::new) } }
}

#[test]
fn let_with_a_variant_pattern_needs_else_and_binds_the_payload() {
    let (c, e) = payload_enum_ctx();
    let init = || data(DataLiteral::Struct(vec![FieldInit { name: 72, value: lit(5, TY_I32), span: sp(81) }]), e);
    let let_b = |else_clause: Option<LetElse>| Expr {
        span: sp(91),
        ty: TY_ERROR,
        kind: ExprKind::Let { pattern: Pattern::Variant { name: 72, binding: Some(60) }, init: Box::new(init()), else_clause },
    };
    let (r, d) = eval(&c, &block(vec![let_b(None)], Some(id_expr(60, TY_I32))));
    assert!(r.is_err());
    assert_eq!(d, vec![DiagCode::RefutableLetNeedsElse]);
    let with_else = block(vec![let_b(Some(LetElse::Expr(Box::new(lit(0, TY_I32)))))], Some(id_expr(60, TY_I32)));
    let (r, d) = eval(&c, &with_else);
    assert_eq!(as_int(&r), Some(5));
    assert!(d.is_empty());
    let miss = Expr {
        span: sp(92),
        ty: TY_ERROR,
        kind: ExprKind::Let {
            pattern: Pattern::Variant { name: 71, binding: None },
            init: Box::new(init()),
            else_clause: Some(LetElse::Arms(vec![])),
        },
    };
    let (r, d) = eval(&c, &block(vec![miss], Some(lit(1, TY_I32))));
    assert!(r.is_err());
    assert_eq!(d, vec![DiagCode::LetElseArmsNoMatch]);
}
