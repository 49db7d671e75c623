use kernc_sema::ast::{DataLiteral, Expr, ExprKind, FieldInit, Span, UnaryOperator};
use kernc_sema::bit_intrinsics::{eval_bit_count, eval_bswap_value, eval_int_cast_value, BitCount};
use kernc_sema::call::{MemberIntrinsic, MemberNames};
use kernc_sema::checker::ExprChecker;
use kernc_sema::context::{Def, DiagCode, FunctionDef, Scope, SemaContext, SymbolInfo, SymbolKind};
use kernc_sema::eval_state::{ConstGeneric, ConstGenericValue, GenericArg};
use kernc_sema::inline_asm::AsmFieldNames;
use kernc_sema::intrinsic::{AtomicDiag, AtomicIntrinsic, AtomicOrdering, OrderRole, SimdDiag, SimdIntrinsic};
use kernc_sema::simd::is_power_of_two;
use kernc_sema::types::{
    TypeKind, TypeRegistry, TY_BOOL, TY_ERROR, TY_F32, TY_I128, TY_I32, TY_I64, TY_NEVER, TY_U8, TY_USIZE, TY_VOID,
};

fn sp(line: u32) -> Span {
    Span { file: 0, line, col: 1 }
}

fn ctx_with(types: TypeRegistry) -> SemaContext {
    SemaContext {
        types,
        defs: Vec::new(),
        scopes: vec![Scope { parent: None, module: None, symbols: Vec::new() }],
        current_scope: Some(0),
        diags: Vec::new(),
        max_atomic_bits: 64,
    }
}

fn typed(ty: u32, line: u32) -> Expr {
    Expr { span: sp(line), ty, kind: ExprKind::Undef }
}

fn lit(v: u128, ty: u32, line: u32) -> Expr {
    Expr { span: sp(line), ty, kind: ExprKind::Integer(v) }
}

fn codes(c: &ExprChecker) -> Vec<DiagCode> {
    c.ctx.diags.iter().map(|d| d.code).collect()
}

// ---- bit intrinsics -------------------------------------------------------

#[test]
fn popcount_of_byte() {
    assert_eq!(eval_bit_count(BitCount::PopCount, 0xFF, 8), 8);
    assert_eq!(eval_bit_count(BitCount::PopCount, 0b1011, 32), 3);
}

#[test]
fn clz_and_ctz() {
    assert_eq!(eval_bit_count(BitCount::Clz, 1, 32), 31);
    assert_eq!(eval_bit_count(BitCount::Clz, 0, 16), 16);
    assert_eq!(eval_bit_count(BitCount::Ctz, 8, 32), 3);
    assert_eq!(eval_bit_count(BitCount::Ctz, 0, 16), 16);
}

#[test]
fn negative_counts_in_twos_complement() {
    assert_eq!(eval_bit_count(BitCount::PopCount, -1, 8), 8);
    assert_eq!(eval_bit_count(BitCount::Clz, -1, 8), 0);
}

#[test]
fn int_cast_truncates_and_sign_extends() {
    assert_eq!(eval_int_cast_value(255, 8, true), -1);
    assert_eq!(eval_int_cast_value(255, 8, false), 255);
    assert_eq!(eval_int_cast_value(0x1_23, 8, false), 0x23);
    assert_eq!(eval_int_cast_value(-1, 16, false), 0xFFFF);
}

#[test]
fn bswap_reverses_bytes() {
    assert_eq!(eval_bswap_value(0x1234, 16), 0x3412);
    assert_eq!(eval_bswap_value(0x1122_3344, 32), 0x4433_2211);
    assert_eq!(eval_bswap_value(0x7F, 8), 0x7F);
}

// ---- orderings -------------------------------------------------------------

#[test]
fn ordering_constants_round_trip() {
    for v in 0..5i128 {
        let o = AtomicOrdering::from_abi_const(v).unwrap();
        assert_eq!(o.abi_const(), v);
    }
    assert!(AtomicOrdering::from_abi_const(5).is_none());
    assert!(AtomicOrdering::from_abi_const(-1).is_none());
}

#[test]
fn ordering_roles() {
    assert!(!AtomicOrdering::Release.valid_for(OrderRole::Load));
    assert!(!AtomicOrdering::Acquire.valid_for(OrderRole::Store));
    assert!(!AtomicOrdering::Relaxed.valid_for(OrderRole::Fence));
    assert!(AtomicOrdering::AcqRel.valid_for(OrderRole::Rmw));
    assert!(!AtomicOrdering::AcqRel.valid_for(OrderRole::CasFailure));
}

#[test]
fn failure_ordering_strength() {
    assert!(AtomicOrdering::Relaxed.failure_not_stronger_than(AtomicOrdering::Relaxed));
    assert!(AtomicOrdering::Acquire.failure_not_stronger_than(AtomicOrdering::AcqRel));
    assert!(!AtomicOrdering::Acquire.failure_not_stronger_than(AtomicOrdering::Release));
    assert!(!AtomicOrdering::SeqCst.failure_not_stronger_than(AtomicOrdering::Acquire));
    assert!(AtomicOrdering::SeqCst.failure_not_stronger_than(AtomicOrdering::SeqCst));
}

// ---- atomics ---------------------------------------------------------------

fn atomic_checker(target: u32, max_bits: u64) -> (ExprChecker, u32) {
    let mut types = TypeRegistry::new(8);
    let ptr = types.intern(TypeKind::Pointer { is_mut: true, elem: target });
    let callee = types.intern(TypeKind::FnDef(0, vec![target]));
    let mut c = ctx_with(types);
    c.max_atomic_bits = max_bits;
    let _ = ptr;
    (ExprChecker::new(c), callee)
}

#[test]
fn cas_failure_stronger_than_success_is_reported() {
    let (mut ch, callee) = atomic_checker(TY_I32, 64);
    let args = vec![
        typed(TY_I32, 1),
        typed(TY_I32, 2),
        typed(TY_I32, 3),
        lit(2, TY_I32, 4), // release
        lit(4, TY_I32, 5), // seq_cst
    ];
    assert!(ch.check_atomic_intrinsic_call(AtomicIntrinsic::Cas, callee, &args));
    let last = ch.ctx.diags.last().unwrap();
    assert_eq!(last.code, DiagCode::AtomicOrder(AtomicDiag::FailureStrongerThanSuccess, OrderRole::CasFailure));
    assert_eq!(last.span, sp(5));
}

#[test]
fn cas_with_valid_orders_is_quiet() {
    let (mut ch, callee) = atomic_checker(TY_I32, 64);
    let args = vec![typed(TY_I32, 1), typed(TY_I32, 2), typed(TY_I32, 3), lit(4, TY_I32, 4), lit(1, TY_I32, 5)];
    assert!(ch.check_atomic_intrinsic_call(AtomicIntrinsic::Cas, callee, &args));
    assert!(ch.ctx.diags.is_empty());
}

#[test]
fn atomic_on_float_is_unsupported() {
    let (mut ch, callee) = atomic_checker(TY_F32, 64);
    let args = vec![typed(TY_I32, 1), lit(0, TY_I32, 2)];
    ch.check_atomic_intrinsic_call(AtomicIntrinsic::Load, callee, &args);
    assert_eq!(codes(&ch), vec![DiagCode::Atomic(AtomicDiag::UnsupportedType, AtomicIntrinsic::Load)]);
}

#[test]
fn atomic_too_wide_for_target() {
    let (mut ch, callee) = atomic_checker(TY_I128, 64);
    let args = vec![typed(TY_I32, 1), lit(0, TY_I32, 2)];
    ch.check_atomic_intrinsic_call(AtomicIntrinsic::Load, callee, &args);
    assert_eq!(codes(&ch), vec![DiagCode::Atomic(AtomicDiag::TooWideForTarget, AtomicIntrinsic::Load)]);
}

#[test]
fn load_with_release_order_is_invalid() {
    let (mut ch, callee) = atomic_checker(TY_I64, 64);
    let args = vec![typed(TY_I32, 1), lit(2, TY_I32, 2)];
    ch.check_atomic_intrinsic_call(AtomicIntrinsic::Load, callee, &args);
    assert_eq!(codes(&ch), vec![DiagCode::AtomicOrder(AtomicDiag::OrderNotValidHere, OrderRole::Load)]);
}

#[test]
fn unknown_order_constant() {
    let (mut ch, callee) = atomic_checker(TY_I64, 64);
    let args = vec![typed(TY_I32, 1), typed(TY_I64, 2), lit(9, TY_I32, 3)];
    ch.check_atomic_intrinsic_call(AtomicIntrinsic::RmwAdd, callee, &args);
    assert_eq!(codes(&ch), vec![DiagCode::AtomicOrder(AtomicDiag::InvalidOrderConstant, OrderRole::Rmw)]);
}

#[test]
fn fence_rejects_relaxed() {
    let (mut ch, callee) = atomic_checker(TY_I64, 64);
    let args = vec![lit(0, TY_I32, 1)];
    ch.check_atomic_intrinsic_call(AtomicIntrinsic::Fence, callee, &args);
    assert_eq!(codes(&ch), vec![DiagCode::AtomicOrder(AtomicDiag::OrderNotValidHere, OrderRole::Fence)]);
}

// ---- SIMD ------------------------------------------------------------------

struct Simd {
    ch: ExprChecker,
    i32x4: u32,
    boolx4: u32,
    i32x2: u32,
    callee_i32x4: u32,
    callee_i32x2: u32,
}

fn simd_checker() -> Simd {
    let mut types = TypeRegistry::new(8);
    let i32x4 = types.intern(TypeKind::Simd { elem: TY_I32, lanes: 4 });
    let boolx4 = types.intern(TypeKind::Simd { elem: TY_BOOL, lanes: 4 });
    let i32x2 = types.intern(TypeKind::Simd { elem: TY_I32, lanes: 2 });
    let callee_i32x4 = types.intern(TypeKind::FnDef(0, vec![i32x4]));
    let callee_i32x2 = types.intern(TypeKind::FnDef(0, vec![i32x2]));
    Simd { ch: ExprChecker::new(ctx_with(types)), i32x4, boolx4, i32x2, callee_i32x4, callee_i32x2 }
}

#[test]
fn reduce_gives_lane_type() {
    let mut s = simd_checker();
    let args = vec![typed(s.i32x4, 1)];
    let r = s.ch.check_simd_intrinsic_call(SimdIntrinsic::ReduceAdd, s.callee_i32x4, &args, TY_VOID);
    assert_eq!(r, Some(TY_I32));
    assert!(s.ch.ctx.diags.is_empty());
}

#[test]
fn reduce_of_scalar_is_error() {
    let mut s = simd_checker();
    let args = vec![typed(TY_I32, 1)];
    let r = s.ch.check_simd_intrinsic_call(SimdIntrinsic::ReduceAdd, s.callee_i32x4, &args, TY_VOID);
    assert_eq!(r, Some(TY_ERROR));
    assert_eq!(codes(&s.ch), vec![DiagCode::Simd(SimdDiag::ExpectsVector, SimdIntrinsic::ReduceAdd)]);
}

#[test]
fn any_expects_mask() {
    let mut s = simd_checker();
    let args = vec![typed(s.i32x4, 3)];
    let r = s.ch.check_simd_intrinsic_call(SimdIntrinsic::Any, s.callee_i32x4, &args, TY_BOOL);
    assert_eq!(r, Some(TY_BOOL));
    assert_eq!(codes(&s.ch), vec![DiagCode::Simd(SimdDiag::ExpectsMask, SimdIntrinsic::Any)]);
    let args = vec![typed(s.boolx4, 3)];
    let before = s.ch.ctx.diags.len();
    s.ch.check_simd_intrinsic_call(SimdIntrinsic::All, s.callee_i32x4, &args, TY_BOOL);
    assert_eq!(s.ch.ctx.diags.len(), before);
}

#[test]
fn splat_takes_the_result_vector() {
    let mut s = simd_checker();
    let args = vec![typed(TY_I32, 1)];
    let r = s.ch.check_simd_intrinsic_call(SimdIntrinsic::Splat, s.callee_i32x4, &args, TY_VOID);
    assert_eq!(r, Some(s.i32x4));
    assert!(s.ch.ctx.diags.is_empty());
    let args = vec![typed(TY_U8, 1)];
    s.ch.check_simd_intrinsic_call(SimdIntrinsic::Splat, s.callee_i32x4, &args, TY_VOID);
    assert_eq!(codes(&s.ch), vec![DiagCode::Simd(SimdDiag::ScalarLaneMismatch, SimdIntrinsic::Splat)]);
}

#[test]
fn low_half_of_vector() {
    let mut s = simd_checker();
    let args = vec![typed(s.i32x4, 1)];
    let r = s.ch.check_simd_intrinsic_call(SimdIntrinsic::LowHalf, s.callee_i32x2, &args, TY_VOID);
    assert_eq!(r, Some(s.i32x2));
    let args = vec![typed(s.i32x2, 1)];
    let r = s.ch.check_simd_intrinsic_call(SimdIntrinsic::LowHalf, s.callee_i32x2, &args, TY_VOID);
    assert_eq!(r, Some(TY_ERROR));
}

#[test]
fn powers_of_two() {
    assert!(is_power_of_two(1));
    assert!(is_power_of_two(64));
    assert!(!is_power_of_two(0));
    assert!(!is_power_of_two(12));
}

#[test]
fn shuffle_indices_in_range() {
    let mut s = simd_checker();
    let idx = Expr {
        span: sp(7),
        ty: TY_ERROR,
        kind: ExprKind::DataInit {
            literal: DataLiteral::Array(vec![lit(0, TY_I32, 7), lit(5, TY_I32, 7), lit(7, TY_I32, 7), lit(1, TY_I32, 7)]),
            typed: false,
        },
    };
    let r = s.ch.eval_simd_shuffle_indices(&idx, 4);
    assert_eq!(r, Some(vec![0, 5, 7, 1]));
    let bad = Expr {
        span: sp(8),
        ty: TY_ERROR,
        kind: ExprKind::DataInit {
            literal: DataLiteral::Array(vec![lit(0, TY_I32, 8), lit(8, TY_I32, 8), lit(1, TY_I32, 8), lit(1, TY_I32, 8)]),
            typed: false,
        },
    };
    assert_eq!(s.ch.eval_simd_shuffle_indices(&bad, 4), None);
}

// ---- inline assembly -------------------------------------------------------

const MEMBERS: MemberNames = MemberNames {
    len: 200,
    ptr: 201,
    start: 202,
    end: 203,
    data_ptr: 204,
    vtable_ptr: 205,
    state_ptr: 206,
    entry_ptr: 207,
};

const NAMES: AsmFieldNames = AsmFieldNames { asm_intrinsic: 99, template: 100, outputs: 101, inputs: 102, clobbers: 103, volatile: 104 };

fn field(name: u32, value: Expr, line: u32) -> FieldInit {
    FieldInit { name, value, span: sp(line) }
}

fn config(fields: Vec<FieldInit>) -> Expr {
    Expr { span: sp(20), ty: TY_ERROR, kind: ExprKind::DataInit { literal: DataLiteral::Struct(fields), typed: false } }
}

fn str_expr(line: u32) -> Expr {
    Expr { span: sp(line), ty: TY_ERROR, kind: ExprKind::Str(kernc_sema::value::StrLit { id: 1, len: 3 }) }
}

#[test]
fn asm_with_template_is_void() {
    let mut ch = ExprChecker::new(ctx_with(TypeRegistry::new(8)));
    let args = vec![config(vec![field(NAMES.template, str_expr(21), 21)])];
    assert_eq!(ch.check_asm_call(&args, sp(19), &NAMES), TY_VOID);
    assert!(ch.ctx.diags.is_empty());
}

#[test]
fn asm_missing_template() {
    let mut ch = ExprChecker::new(ctx_with(TypeRegistry::new(8)));
    let args = vec![config(vec![])];
    assert_eq!(ch.check_asm_call(&args, sp(19), &NAMES), TY_VOID);
    assert_eq!(codes(&ch), vec![DiagCode::AsmMissingTemplate]);
}

#[test]
fn asm_argument_count_and_shape() {
    let mut ch = ExprChecker::new(ctx_with(TypeRegistry::new(8)));
    assert_eq!(ch.check_asm_call(&vec![], sp(19), &NAMES), TY_ERROR);
    assert_eq!(ch.check_asm_call(&vec![lit(1, TY_I32, 3)], sp(19), &NAMES), TY_ERROR);
    assert_eq!(codes(&ch), vec![DiagCode::AsmArgCount, DiagCode::AsmArgNotStruct]);
}

#[test]
fn asm_outputs_need_mut_pointers() {
    let mut types = TypeRegistry::new(8);
    let const_ptr = types.intern(TypeKind::Pointer { is_mut: false, elem: TY_I32 });
    let mut_ptr = types.intern(TypeKind::Pointer { is_mut: true, elem: TY_I32 });
    let mut ch = ExprChecker::new(ctx_with(types));
    let outputs = config(vec![field(1, typed(mut_ptr, 30), 30), field(2, typed(const_ptr, 31), 31)]);
    let clobbers = Expr {
        span: sp(40),
        ty: TY_ERROR,
        kind: ExprKind::DataInit { literal: DataLiteral::Array(vec![str_expr(41), lit(3, TY_I32, 42)]), typed: false },
    };
    let args = vec![config(vec![
        field(NAMES.template, str_expr(21), 21),
        field(NAMES.outputs, outputs, 22),
        field(NAMES.clobbers, clobbers, 23),
        field(999, lit(0, TY_I32, 24), 24),
    ])];
    assert_eq!(ch.check_asm_call(&args, sp(19), &NAMES), TY_VOID);
    let got: Vec<(DiagCode, u32)> = ch.ctx.diags.iter().map(|d| (d.code, d.span.line)).collect();
    assert_eq!(
        got,
        vec![
            (DiagCode::AsmOutputNotMutPointer, 31),
            (DiagCode::AsmClobberNotString, 42),
            (DiagCode::AsmUnknownField, 24),
        ]
    );
}

// ---- unification and coercions --------------------------------------------

#[test]
fn unify_binds_parameters() {
    let mut types = TypeRegistry::new(8);
    let t = types.intern(TypeKind::Param(7));
    let ptr_t = types.intern(TypeKind::Pointer { is_mut: true, elem: t });
    let ptr_i32 = types.intern(TypeKind::Pointer { is_mut: true, elem: TY_I32 });
    let cptr_i32 = types.intern(TypeKind::Pointer { is_mut: false, elem: TY_I32 });
    let ch = ExprChecker::new(ctx_with(types));
    let mut map = Vec::new();
    assert!(ch.unify(ptr_t, ptr_i32, &mut map));
    assert_eq!(map, vec![(7, TY_I32)]);
    assert!(ch.unify(t, TY_I32, &mut map));
    assert!(!ch.unify(t, TY_I64, &mut map));
    let mut fresh = Vec::new();
    assert!(!ch.unify(ptr_t, cptr_i32, &mut fresh));
    assert!(fresh.is_empty());
}

#[test]
fn signatures_and_closure_decay() {
    let mut types = TypeRegistry::new(8);
    let t = types.intern(TypeKind::Param(3));
    let closure = types.intern(TypeKind::AnonymousState { captures: vec![], params: vec![TY_I32, TY_I32], ret: TY_I32 });
    let capturing = types.intern(TypeKind::AnonymousState { captures: vec![TY_I64], params: vec![TY_I32, TY_I32], ret: TY_I32 });
    let closure = types.get(closure).clone();
    let capturing = types.get(capturing).clone();
    let ch = ExprChecker::new(ctx_with(types));
    assert!(ch.signatures_compatible(&vec![t, t], t, &vec![TY_I32, TY_I32], TY_I32));
    assert!(!ch.signatures_compatible(&vec![t, t], t, &vec![TY_I32, TY_I64], TY_I32));
    assert!(!ch.signatures_compatible(&vec![t], t, &vec![TY_I32, TY_I32], TY_I32));
    assert!(ch.check_closure_decay_to_function(&vec![TY_I32, TY_I32], TY_I32, &closure));
    assert!(!ch.check_closure_decay_to_function(&vec![TY_I32, TY_I32], TY_I32, &capturing));
    assert!(!ch.check_closure_decay_to_function(&vec![TY_I32, TY_I32], TY_I32, &TypeKind::Primitive(kernc_sema::types::PrimitiveType::I32)));
}

#[test]
fn type_var_binds_to_other_side() {
    let mut types = TypeRegistry::new(8);
    let v0 = types.intern(TypeKind::TypeVar(0));
    let mut ch = ExprChecker::new(ctx_with(types));
    ch.type_vars.push(None);
    assert!(ch.check_type_var(TY_I64, v0));
    assert_eq!(ch.type_vars, vec![Some(TY_I64)]);
    assert_eq!(ch.resolve_tv(v0), TY_I64);
    assert!(!ch.check_type_var(TY_I32, TY_I64));
}

#[test]
fn argument_match_scores() {
    let mut types = TypeRegistry::new(8);
    let cptr = types.intern(TypeKind::Pointer { is_mut: false, elem: TY_U8 });
    let mptr = types.intern(TypeKind::Pointer { is_mut: true, elem: TY_U8 });
    let slice = types.intern(TypeKind::Slice { is_mut: false, elem: TY_U8 });
    let array = types.intern(TypeKind::Array { is_mut: false, elem: TY_U8, len: 4 });
    let ch = ExprChecker::new(ctx_with(types));
    assert_eq!(ch.call_argument_match_score(TY_I32, TY_I32), Some(0));
    assert_eq!(ch.call_argument_match_score(TY_I32, TY_NEVER), Some(1));
    assert_eq!(ch.call_argument_match_score(cptr, mptr), Some(1));
    assert_eq!(ch.call_argument_match_score(mptr, cptr), None);
    assert_eq!(ch.call_argument_match_score(slice, array), Some(1));
    assert_eq!(ch.call_argument_match_score(TY_I32, TY_I64), None);
}

#[test]
fn pointer_predicates_and_base_type() {
    let mut types = TypeRegistry::new(8);
    let module = types.intern(TypeKind::Module(5));
    let p1 = types.intern(TypeKind::Pointer { is_mut: false, elem: module });
    let p2 = types.intern(TypeKind::VolatilePtr { is_mut: true, elem: p1 });
    let slice = types.intern(TypeKind::Slice { is_mut: false, elem: TY_U8 });
    let fat = types.intern(TypeKind::Pointer { is_mut: false, elem: slice });
    let fat_mut = types.intern(TypeKind::Pointer { is_mut: true, elem: slice });
    let ch = ExprChecker::new(ctx_with(types));
    assert_eq!(ch.get_base_type(p2), module);
    assert!(ch.receiver_base_is_module(p2));
    assert!(!ch.receiver_base_is_module(TY_I32));
    assert!(ch.is_object_pointer_type(p1));
    assert!(ch.is_address_pointer_type(p2));
    assert!(!ch.is_function_pointer_type(p1));
    assert!(ch.is_slice_pointer_value_type(fat));
    assert!(ch.is_fat_pointer_value_type(fat));
    assert!(!ch.is_fat_pointer_value_type(p1));
    assert!(ch.fat_pointer_cast_mutability_mismatch(fat, fat_mut));
    assert!(!ch.fat_pointer_cast_mutability_mismatch(fat_mut, fat));
    assert!(ExprChecker::pointer_mutability_allows(false, true));
    assert!(!ExprChecker::pointer_mutability_allows(true, false));
    assert_eq!(ch.cast_operand_expected_type(TY_F32), Some(TY_F32));
    assert_eq!(ch.cast_operand_expected_type(p1), None);
}

#[test]
fn unresolved_parameters_are_found() {
    let mut types = TypeRegistry::new(8);
    let t = types.intern(TypeKind::Param(1));
    let ptr_t = types.intern(TypeKind::Pointer { is_mut: false, elem: t });
    let f = types.intern(TypeKind::Function { params: vec![TY_I32], ret: ptr_t, is_variadic: false });
    let g = types.intern(TypeKind::Function { params: vec![TY_I32], ret: TY_I32, is_variadic: false });
    let ch = ExprChecker::new(ctx_with(types));
    assert!(ch.type_contains_unresolved_params(f));
    assert!(!ch.type_contains_unresolved_params(g));
    assert!(!ch.type_contains_unresolved_params(TY_I32));
}

// ---- traits, substitution and pointer casts ---------------------------------


struct Traits {
    ch: ExprChecker,
    t_a: u32,
    t_b: u32,
    c_i32: u32,
    b2_i32: u32,
    b2_i64: u32,
    cptr_i32: u32,
    mptr_i32: u32,
    param_t: u32,
}

/// Traits: A (def 0) with supertrait B (def 1); C<T> (def 2) with
/// supertrait B2<T> (def 3).
fn traits_checker(impls: Vec<(u32, u32)>) -> Traits {
    let mut types = TypeRegistry::new(8);
    let t_a = types.intern(TypeKind::TraitObject(0, vec![]));
    let t_b = types.intern(TypeKind::TraitObject(1, vec![]));
    let param_t = types.intern(TypeKind::Param(10));
    let b2_t = types.intern(TypeKind::TraitObject(3, vec![param_t]));
    let c_i32 = types.intern(TypeKind::TraitObject(2, vec![TY_I32]));
    let b2_i32 = types.intern(TypeKind::TraitObject(3, vec![TY_I32]));
    let b2_i64 = types.intern(TypeKind::TraitObject(3, vec![TY_I64]));
    let cptr_i32 = types.intern(TypeKind::Pointer { is_mut: false, elem: TY_I32 });
    let mptr_i32 = types.intern(TypeKind::Pointer { is_mut: true, elem: TY_I32 });
    let mut c = ctx_with(types);
    c.defs = vec![
        Def::Trait { generics: vec![], supertraits: vec![t_b] },
        Def::Trait { generics: vec![], supertraits: vec![] },
        Def::Trait { generics: vec![10], supertraits: vec![b2_t] },
        Def::Trait { generics: vec![11], supertraits: vec![] },
    ];
    let mut ch = ExprChecker::new(c);
    ch.impls = impls;
    Traits { ch, t_a, t_b, c_i32, b2_i32, b2_i64, cptr_i32, mptr_i32, param_t }
}

#[test]
fn supertrait_upcasts() {
    let mut t = traits_checker(vec![]);
    assert!(t.ch.is_trait_object_upcast(t.t_a, t.t_b));
    assert!(t.ch.is_trait_object_upcast(t.t_a, t.t_a));
    assert!(!t.ch.is_trait_object_upcast(t.t_b, t.t_a));
}

#[test]
fn generic_supertrait_is_instantiated() {
    let mut t = traits_checker(vec![]);
    assert!(t.ch.is_trait_object_upcast(t.c_i32, t.b2_i32));
    assert!(!t.ch.is_trait_object_upcast(t.c_i32, t.b2_i64));
    let mut visited = Vec::new();
    assert_eq!(t.ch.find_supertrait_in_hierarchy(t.c_i32, t.b2_i32, &mut visited), Some(t.b2_i32));
    assert_eq!(visited, vec![t.c_i32]);
}

#[test]
fn substitution_replaces_parameters() {
    let mut types = TypeRegistry::new(8);
    let p = types.intern(TypeKind::Param(4));
    let ptr_p = types.intern(TypeKind::Pointer { is_mut: false, elem: p });
    let f = types.intern(TypeKind::Function { params: vec![ptr_p, TY_BOOL], ret: p, is_variadic: false });
    let ptr_u8 = types.intern(TypeKind::Pointer { is_mut: false, elem: TY_U8 });
    let map = vec![(4u32, TY_U8)];
    assert_eq!(types.substitute(&map, ptr_p), Some(ptr_u8));
    assert_eq!(types.substitute(&map, p), Some(TY_U8));
    assert_eq!(types.substitute(&map, TY_I32), Some(TY_I32));
    let g = types.substitute(&map, f).unwrap();
    match types.get(g) {
        TypeKind::Function { params, ret, is_variadic } => {
            assert_eq!(params, &vec![ptr_u8, TY_BOOL]);
            assert_eq!(*ret, TY_U8);
            assert!(!*is_variadic);
        },
        _ => panic!("not a function type"),
    }
    assert_eq!(types.substitute(&vec![], f), Some(f));
}

#[test]
fn impls_and_their_supertraits() {
    let mut t = traits_checker(vec![]);
    let (i32_ty, a, b) = (TY_I32, t.t_a, t.t_b);
    t.ch.impls = vec![(i32_ty, a)];
    assert!(t.ch.check_trait_impl(TY_I32, a));
    assert!(t.ch.check_trait_impl(TY_I32, b));
    assert!(!t.ch.check_trait_impl(TY_I64, a));
}

#[test]
fn generic_impl_and_mutable_downgrade() {
    let mut t = traits_checker(vec![]);
    let ptr_t = t.ch.ctx.types.intern(TypeKind::Pointer { is_mut: false, elem: t.param_t });
    t.ch.impls = vec![(ptr_t, t.t_a)];
    assert!(t.ch.check_trait_impl(t.cptr_i32, t.t_a));
    assert!(t.ch.check_trait_impl(t.mptr_i32, t.t_a));
    assert!(!t.ch.check_trait_impl(TY_I32, t.t_a));
}

#[test]
fn bounds_in_force() {
    let mut t = traits_checker(vec![]);
    t.ch.active_bounds = vec![(t.param_t, vec![t.t_a])];
    assert!(t.ch.check_trait_impl(t.param_t, t.t_a));
    assert!(!t.ch.check_trait_impl(t.param_t, t.b2_i64));
}

#[test]
fn casts_to_trait_object_pointers() {
    let mut t = traits_checker(vec![]);
    t.ch.impls = vec![(t.cptr_i32, t.t_a)];
    let to_a = t.ch.ctx.types.intern(TypeKind::Pointer { is_mut: false, elem: t.t_a });
    let to_a_mut = t.ch.ctx.types.intern(TypeKind::Pointer { is_mut: true, elem: t.t_a });
    let to_b = t.ch.ctx.types.intern(TypeKind::Pointer { is_mut: false, elem: t.t_b });
    assert!(t.ch.can_cast_to_trait_object_pointer(t.cptr_i32, to_a));
    assert!(t.ch.can_cast_to_trait_object_pointer(t.mptr_i32, to_a));
    assert!(!t.ch.can_cast_to_trait_object_pointer(t.cptr_i32, to_a_mut));
    assert!(!t.ch.can_cast_to_trait_object_pointer(TY_I32, to_a));
    assert!(t.ch.can_cast_to_trait_object_pointer(to_a, to_b));
    assert!(!t.ch.can_cast_to_trait_object_pointer(to_b, to_a));
    assert_eq!(t.ch.enrich_trait_object_pointer_cast_target(t.mptr_i32, to_a), to_a);
    assert_eq!(t.ch.constrain_pointer_cast_integer(TY_I64), TY_I64);
}

#[test]
fn pointer_to_pointer_coercions() {
    let mut t = traits_checker(vec![]);
    t.ch.impls = vec![(t.cptr_i32, t.t_a)];
    let mk = t.ch.ctx.types.get(t.mptr_i32).clone();
    let ck = t.ch.ctx.types.get(t.cptr_i32).clone();
    assert!(t.ch.check_pointer_to_pointer_coercion(false, TY_VOID, t.mptr_i32, &mk));
    assert!(t.ch.check_pointer_to_pointer_coercion(false, TY_I32, t.mptr_i32, &mk));
    assert!(!t.ch.check_pointer_to_pointer_coercion(true, TY_I32, t.cptr_i32, &ck));
    assert!(!t.ch.check_pointer_to_pointer_coercion(false, TY_I64, t.cptr_i32, &ck));
    assert!(t.ch.check_pointer_to_pointer_coercion(false, t.t_a, t.cptr_i32, &ck));
    assert!(t.ch.check_pointer_to_pointer_coercion(false, t.t_a, t.mptr_i32, &mk));
    let ik = t.ch.ctx.types.get(TY_I32).clone();
    assert!(!t.ch.check_pointer_to_pointer_coercion(false, TY_I32, TY_I32, &ik));
}

#[test]
fn receiver_search_order() {
    let mut t = traits_checker(vec![]);
    let r = t.ch.method_receiver_search_types(t.mptr_i32);
    assert_eq!(r, vec![t.mptr_i32, t.cptr_i32, TY_I32]);
    let arr = t.ch.ctx.types.intern(TypeKind::Array { is_mut: false, elem: TY_U8, len: 4 });
    let r = t.ch.method_receiver_search_types(arr);
    assert_eq!(r.len(), 2);
    assert_eq!(r[0], arr);
    assert!(matches!(t.ch.ctx.types.get(r[1]), TypeKind::Slice { is_mut: false, elem } if *elem == TY_U8));
    assert_eq!(t.ch.method_receiver_search_types(TY_I32), vec![TY_I32]);
}

#[test]
fn bound_cache_keys() {
    let t = traits_checker(vec![]);
    let v = ConstGeneric::Value { ty: TY_I32, value: ConstGenericValue::Int(3) };
    let args = vec![GenericArg::Type(TY_I32), GenericArg::Const(v)];
    assert_eq!(t.ch.generic_bounds_success_cache_key(7, &args), Some((7, args.clone())));
    assert_eq!(t.ch.generic_bounds_success_cache_key(7, &vec![GenericArg::Type(t.param_t)]), None);
    assert_eq!(t.ch.generic_bounds_success_cache_key(7, &vec![GenericArg::Const(ConstGeneric::Param(2))]), None);
    let mut t2 = traits_checker(vec![]);
    t2.ch.active_bounds = vec![(t2.param_t, vec![t2.t_a])];
    assert_eq!(t2.ch.generic_bounds_success_cache_key(7, &vec![GenericArg::Type(TY_I32)]), None);
}

// ---- implicit coercions -----------------------------------------------------


fn var_expr(name: u32, ty: u32) -> Expr {
    Expr { span: sp(50), ty, kind: ExprKind::Identifier(name) }
}

struct Coerce {
    ch: ExprChecker,
    cptr_i32: u32,
    mptr_i32: u32,
    cptr_void: u32,
    slice_i32: u32,
    mslice_i32: u32,
    arr_i32: u32,
    marr_i32: u32,
    fn_i32: u32,
    closure: u32,
    iface_ptr: u32,
    miface_ptr: u32,
    t_a: u32,
    cptr_a: u32,
    mptr_a: u32,
    vptr_i32: u32,
    vcptr_void: u32,
    generic_fn: u32,
}

/// Variable 1 is immutable, variable 2 mutable; def 0 is trait A, def 1 a
/// generic function `fn<T>(T) -> *const T`.
fn coerce_checker() -> Coerce {
    let mut types = TypeRegistry::new(8);
    let cptr_i32 = types.intern(TypeKind::Pointer { is_mut: false, elem: TY_I32 });
    let mptr_i32 = types.intern(TypeKind::Pointer { is_mut: true, elem: TY_I32 });
    let cptr_void = types.intern(TypeKind::Pointer { is_mut: false, elem: TY_VOID });
    let slice_i32 = types.intern(TypeKind::Slice { is_mut: false, elem: TY_I32 });
    let mslice_i32 = types.intern(TypeKind::Slice { is_mut: true, elem: TY_I32 });
    let arr_i32 = types.intern(TypeKind::Array { is_mut: false, elem: TY_I32, len: 3 });
    let marr_i32 = types.intern(TypeKind::Array { is_mut: true, elem: TY_I32, len: 3 });
    let fn_i32 = types.intern(TypeKind::Function { params: vec![TY_I32], ret: TY_I32, is_variadic: false });
    let closure = types.intern(TypeKind::AnonymousState { captures: vec![], params: vec![TY_I32], ret: TY_I32 });
    let iface = types.intern(TypeKind::ClosureInterface { params: vec![TY_I32], ret: TY_I32 });
    let iface_ptr = types.intern(TypeKind::Pointer { is_mut: false, elem: iface });
    let miface_ptr = types.intern(TypeKind::Pointer { is_mut: true, elem: iface });
    let t_a = types.intern(TypeKind::TraitObject(0, vec![]));
    let cptr_a = types.intern(TypeKind::Pointer { is_mut: false, elem: t_a });
    let mptr_a = types.intern(TypeKind::Pointer { is_mut: true, elem: t_a });
    let vptr_i32 = types.intern(TypeKind::VolatilePtr { is_mut: true, elem: TY_I32 });
    let vcptr_void = types.intern(TypeKind::VolatilePtr { is_mut: false, elem: TY_VOID });
    let p = types.intern(TypeKind::Param(9));
    let cptr_p = types.intern(TypeKind::Pointer { is_mut: false, elem: p });
    let sig = types.intern(TypeKind::Function { params: vec![p], ret: cptr_p, is_variadic: false });
    let generic_fn = types.intern(TypeKind::FnDef(1, vec![TY_U8]));
    let mut c = ctx_with(types);
    c.scopes[0].symbols = vec![
        (1, SymbolInfo { kind: SymbolKind::Var, def_id: None, type_id: TY_I32, is_mut: false }),
        (2, SymbolInfo { kind: SymbolKind::Var, def_id: None, type_id: TY_I32, is_mut: true }),
    ];
    c.defs = vec![
        Def::Trait { generics: vec![], supertraits: vec![] },
        Def::Function(FunctionDef {
            name: 30,
            parent: None,
            is_const: false,
            is_extern: false,
            intrinsic: None,
            generics: vec![9],
            params: vec![],
            body: None,
            sig: Some(sig),
            where_clauses: vec![],
        }),
    ];
    let mut ch = ExprChecker::new(c);
    ch.impls = vec![(cptr_i32, t_a), (mptr_i32, t_a)];
    Coerce {
        ch, cptr_i32, mptr_i32, cptr_void, slice_i32, mslice_i32, arr_i32, marr_i32, fn_i32, closure, iface_ptr,
        miface_ptr, t_a, cptr_a, mptr_a, vptr_i32, vcptr_void, generic_fn,
    }
}

#[test]
fn lvalue_mutability() {
    let c = coerce_checker();
    assert!(!c.ch.is_lvalue_mutable(&var_expr(1, TY_I32)));
    assert!(c.ch.is_lvalue_mutable(&var_expr(2, TY_I32)));
    assert!(!c.ch.is_lvalue_mutable(&var_expr(3, TY_I32)));
    assert!(c.ch.is_lvalue_mutable(&lit(4, TY_I32, 1)));
    assert!(!c.ch.is_lvalue_mutable(&str_expr(2)));
    let deref = |ty: u32| Expr {
        span: sp(3),
        ty: TY_I32,
        kind: ExprKind::Unary { op: UnaryOperator::PointerDeRef, operand: Box::new(var_expr(1, ty)) },
    };
    assert!(c.ch.is_lvalue_mutable(&deref(c.mptr_i32)));
    assert!(!c.ch.is_lvalue_mutable(&deref(c.cptr_i32)));
    let index = Expr {
        span: sp(4),
        ty: TY_I32,
        kind: ExprKind::IndexAccess { lhs: Box::new(var_expr(2, c.arr_i32)), index: Box::new(lit(0, TY_USIZE, 4)) },
    };
    assert!(!c.ch.is_lvalue_mutable(&index));
    let index_mut = Expr {
        span: sp(4),
        ty: TY_I32,
        kind: ExprKind::IndexAccess { lhs: Box::new(var_expr(1, c.marr_i32)), index: Box::new(lit(0, TY_USIZE, 4)) },
    };
    assert!(c.ch.is_lvalue_mutable(&index_mut));
}

#[test]
fn coercion_of_pointers() {
    let mut c = coerce_checker();
    let e = var_expr(2, c.mptr_i32);
    assert!(c.ch.check_coercion(&e, c.cptr_i32, c.mptr_i32));
    assert!(c.ch.check_coercion(&e, c.cptr_void, c.mptr_i32));
    assert!(c.ch.check_coercion(&e, TY_I32, TY_NEVER));
    assert!(c.ch.check_coercion(&e, TY_ERROR, TY_I32));
    assert!(c.ch.ctx.diags.is_empty());
    assert!(!c.ch.check_coercion(&e, c.mptr_i32, c.cptr_i32));
    assert_eq!(codes(&c.ch), vec![DiagCode::MismatchedTypes]);
    assert_eq!(c.ch.ctx.diags[0].span, sp(50));
}

#[test]
fn coercion_to_trait_object_pointers() {
    let mut c = coerce_checker();
    let e = var_expr(2, c.mptr_i32);
    assert!(c.ch.check_coercion(&e, c.cptr_a, c.cptr_i32));
    assert!(c.ch.check_coercion(&e, c.cptr_a, c.mptr_i32));
    let v = var_expr(1, TY_I32);
    assert!(c.ch.check_coercion(&v, c.cptr_a, TY_I32));
    assert!(c.ch.ctx.diags.is_empty());
    assert!(!c.ch.check_coercion(&v, c.mptr_a, TY_I32));
    assert_eq!(codes(&c.ch), vec![DiagCode::ImmutableBorrowAsMutTraitObject, DiagCode::MismatchedTypes]);
    let m = var_expr(2, TY_I32);
    assert!(c.ch.check_coercion(&m, c.mptr_a, TY_I32));
}

#[test]
fn coercion_of_slices_and_arrays() {
    let mut c = coerce_checker();
    let e = var_expr(2, c.arr_i32);
    assert!(c.ch.check_coercion(&e, c.slice_i32, c.mslice_i32));
    assert!(c.ch.check_coercion(&e, c.slice_i32, c.arr_i32));
    assert!(c.ch.check_coercion(&e, c.mslice_i32, c.marr_i32));
    assert!(c.ch.ctx.diags.is_empty());
    assert!(!c.ch.check_coercion(&e, c.mslice_i32, c.arr_i32));
    assert_eq!(codes(&c.ch), vec![DiagCode::ImmutableArrayToMutSlice, DiagCode::MismatchedTypes]);
    assert_eq!(c.ch.check_array_decay(false, TY_I64, &TypeKind::Array { is_mut: false, elem: TY_I32, len: 1 }, sp(9)), Ok(false));
}

#[test]
fn coercion_binds_inference_variables() {
    let mut c = coerce_checker();
    let v = c.ch.ctx.types.intern(TypeKind::TypeVar(0));
    c.ch.type_vars.push(None);
    let e = var_expr(2, v);
    assert!(c.ch.check_coercion(&e, c.slice_i32, v));
    assert_eq!(c.ch.type_vars, vec![Some(c.slice_i32)]);
    assert!(c.ch.check_coercion(&e, c.slice_i32, v));
}

#[test]
fn coercion_of_closures_and_functions() {
    let mut c = coerce_checker();
    let e = var_expr(1, c.closure);
    assert!(c.ch.check_coercion(&e, c.fn_i32, c.closure));
    assert!(c.ch.check_coercion(&e, c.iface_ptr, c.closure));
    assert!(c.ch.check_coercion(&e, c.iface_ptr, c.fn_i32));
    assert!(c.ch.ctx.diags.is_empty());
    assert!(!c.ch.check_coercion(&e, c.miface_ptr, c.closure));
    assert_eq!(codes(&c.ch), vec![DiagCode::ImmutableClosureAsMutClosure, DiagCode::MismatchedTypes]);
    let m = var_expr(2, c.closure);
    assert!(c.ch.check_coercion(&m, c.miface_ptr, c.closure));
}

#[test]
fn generic_function_signature_is_instantiated() {
    let mut c = coerce_checker();
    let (ps, rt) = c.ch.instantiate_fn_def_signature(1, &vec![TY_U8], sp(1)).unwrap();
    assert_eq!(ps, vec![TY_U8]);
    assert!(matches!(c.ch.ctx.types.get(rt), TypeKind::Pointer { is_mut: false, elem } if *elem == TY_U8));
    assert_eq!(c.ch.instantiate_fn_def_signature(0, &vec![], sp(2)), None);
    assert_eq!(c.ch.instantiate_fn_def_signature(7, &vec![], sp(3)), None);
    assert_eq!(codes(&c.ch), vec![DiagCode::FnDefNotFunction, DiagCode::FnDefNotFunction]);
    let k = c.ch.ctx.types.get(c.generic_fn).clone();
    assert!(c.ch.extract_fn_sig_for_bnc(&k, sp(4)).is_some());
}

#[test]
fn volatile_pointer_coercions() {
    let mut c = coerce_checker();
    let ek = c.ch.ctx.types.get(c.vcptr_void).clone();
    let ak = c.ch.ctx.types.get(c.vptr_i32).clone();
    let e = var_expr(2, c.vptr_i32);
    assert!(c.ch.check_volatile_coercions(&e, c.vcptr_void, c.vptr_i32, &ek, &ak));
    assert!(!c.ch.check_volatile_coercions(&e, c.vptr_i32, c.vcptr_void, &ak, &ek));
    assert!(c.ch.check_coercion(&e, c.vcptr_void, c.vptr_i32));
}

#[test]
fn casts_to_closure_pointers() {
    let mut c = coerce_checker();
    let cptr_closure = c.ch.ctx.types.intern(TypeKind::Pointer { is_mut: false, elem: c.closure });
    let cptr_fn = c.ch.ctx.types.intern(TypeKind::Pointer { is_mut: false, elem: c.fn_i32 });
    assert!(c.ch.can_cast_to_closure_fat_pointer(cptr_closure, c.iface_ptr));
    assert!(c.ch.can_cast_to_closure_fat_pointer(cptr_fn, c.iface_ptr));
    assert!(!c.ch.can_cast_to_closure_fat_pointer(cptr_closure, c.miface_ptr));
    assert!(!c.ch.can_cast_to_closure_fat_pointer(c.cptr_i32, c.iface_ptr));
    assert!(!c.ch.can_cast_to_closure_fat_pointer(cptr_closure, c.cptr_i32));
}

// ---- inference of generic arguments ---------------------------------------

#[test]
fn infer_binds_parameters_through_structure() {
    let mut types = TypeRegistry::new(8);
    let t = types.intern(TypeKind::Param(7));
    let u = types.intern(TypeKind::Param(8));
    let f_tu = types.intern(TypeKind::Function { params: vec![t], ret: u, is_variadic: false });
    let f_ib = types.intern(TypeKind::Function { params: vec![TY_I32], ret: TY_BOOL, is_variadic: false });
    let f_var = types.intern(TypeKind::Function { params: vec![TY_I32], ret: TY_BOOL, is_variadic: true });
    let mut ch = ExprChecker::new(ctx_with(types));
    let mut map = Vec::new();
    assert!(ch.infer_generic_args_from_types(f_tu, f_ib, &mut map));
    assert_eq!(map, vec![(7, TY_I32), (8, TY_BOOL)]);
    let mut fresh = Vec::new();
    assert!(!ch.infer_generic_args_from_types(f_tu, f_var, &mut fresh));
    assert!(fresh.is_empty());
}

#[test]
fn infer_keeps_the_first_binding() {
    let mut types = TypeRegistry::new(8);
    let t = types.intern(TypeKind::Param(7));
    let pair = types.intern(TypeKind::Def(30, vec![t, t]));
    let same = types.intern(TypeKind::Def(30, vec![TY_I32, TY_I32]));
    let mixed = types.intern(TypeKind::Def(30, vec![TY_I32, TY_I64]));
    let other = types.intern(TypeKind::Def(31, vec![TY_I32, TY_I32]));
    let mut ch = ExprChecker::new(ctx_with(types));
    let mut map = Vec::new();
    assert!(ch.infer_generic_args_from_types(pair, same, &mut map));
    assert_eq!(map, vec![(7, TY_I32)]);
    let mut map = Vec::new();
    assert!(!ch.infer_generic_args_from_types(pair, mixed, &mut map));
    assert_eq!(map, vec![(7, TY_I32)]);
    let mut map = Vec::new();
    assert!(!ch.infer_generic_args_from_types(pair, other, &mut map));
    assert!(map.is_empty());
}

#[test]
fn infer_refuses_a_parameter_inside_its_own_binding() {
    let mut types = TypeRegistry::new(8);
    let t = types.intern(TypeKind::Param(7));
    let ptr_t = types.intern(TypeKind::Pointer { is_mut: false, elem: t });
    let mut ch = ExprChecker::new(ctx_with(types));
    let mut map = Vec::new();
    assert!(!ch.infer_generic_args_from_types(t, ptr_t, &mut map));
    assert!(map.is_empty());
    assert!(ch.infer_generic_args_from_types(t, t, &mut map));
    assert_eq!(map, vec![(7, t)]);
}

#[test]
fn infer_matches_a_supertrait_object() {
    // trait 1 is generic over parameter 5; trait 2 lists `1<i32>` among its
    // supertraits. Matching `1<T>` against a `2` object binds T to i32.
    let mut types = TypeRegistry::new(8);
    let t = types.intern(TypeKind::Param(7));
    let gen = types.intern(TypeKind::TraitObject(1, vec![t]));
    let sup = types.intern(TypeKind::TraitObject(1, vec![TY_I32]));
    let sub = types.intern(TypeKind::TraitObject(2, vec![]));
    let mut c = ctx_with(types);
    c.defs = vec![
        Def::Other,
        Def::Trait { generics: vec![5], supertraits: vec![] },
        Def::Trait { generics: vec![], supertraits: vec![sup] },
    ];
    let mut ch = ExprChecker::new(c);
    let mut map = Vec::new();
    assert!(ch.infer_generic_args_from_types(gen, sub, &mut map));
    assert_eq!(map, vec![(7, TY_I32)]);
    let mut visited = Vec::new();
    let mut out = Vec::new();
    ch.collect_trait_object_hierarchy_candidates(sub, 1, &mut visited, &mut out);
    assert_eq!(out, vec![sup]);
    assert_eq!(visited, vec![sub, sup]);
}

// ---- signature deduction ---------------------------------------------------

fn generic_fn(name: u32, generics: Vec<u32>, sig: u32, where_clauses: Vec<(u32, Vec<u32>)>) -> Def {
    Def::Function(FunctionDef {
        name,
        parent: None,
        is_const: false,
        is_extern: false,
        intrinsic: None,
        generics,
        params: vec![],
        body: None,
        sig: Some(sig),
        where_clauses,
    })
}

struct Sigs {
    ch: ExprChecker,
    t: u32,
    id_sig: u32,
    make_sig: u32,
    get_sig: u32,
    cptr_t: u32,
    mptr_i32: u32,
    cptr_i32: u32,
    trait_a: u32,
}

/// Def 0: `fn id<T>(x: T) -> T`; def 1: `fn make<T>() -> T`; def 2:
/// `fn get<T>(self: *const T) -> T`; def 3: `fn plain(x: i32) -> i32`;
/// def 4: `fn bounded<T>(x: T) -> T where T: A`; def 5: the trait `A`.
fn sigs() -> Sigs {
    let mut types = TypeRegistry::new(8);
    let t = types.intern(TypeKind::Param(9));
    let id_sig = types.intern(TypeKind::Function { params: vec![t], ret: t, is_variadic: false });
    let make_sig = types.intern(TypeKind::Function { params: vec![], ret: t, is_variadic: false });
    let cptr_t = types.intern(TypeKind::Pointer { is_mut: false, elem: t });
    let get_sig = types.intern(TypeKind::Function { params: vec![cptr_t], ret: t, is_variadic: false });
    let plain_sig = types.intern(TypeKind::Function { params: vec![TY_I32], ret: TY_I32, is_variadic: false });
    let mptr_i32 = types.intern(TypeKind::Pointer { is_mut: true, elem: TY_I32 });
    let cptr_i32 = types.intern(TypeKind::Pointer { is_mut: false, elem: TY_I32 });
    let trait_a = types.intern(TypeKind::TraitObject(5, vec![]));
    let mut c = ctx_with(types);
    c.defs = vec![
        generic_fn(40, vec![9], id_sig, vec![]),
        generic_fn(41, vec![9], make_sig, vec![]),
        generic_fn(42, vec![9], get_sig, vec![]),
        generic_fn(43, vec![], plain_sig, vec![]),
        generic_fn(44, vec![9], id_sig, vec![(t, vec![trait_a])]),
        Def::Trait { generics: vec![], supertraits: vec![] },
    ];
    Sigs { ch: ExprChecker::new(c), t, id_sig, make_sig, get_sig, cptr_t, mptr_i32, cptr_i32, trait_a }
}

#[test]
fn deduce_infers_from_argument_types() {
    let mut s = sigs();
    let callee = s.ch.ctx.types.intern(TypeKind::FnDef(0, vec![]));
    let args = vec![typed(TY_I64, 1)];
    let (sig, inferred, tys) = s.ch.deduce_and_resolve_signature(callee, &args, false, TY_ERROR, sp(5), false);
    let want_sig = s.ch.ctx.types.intern(TypeKind::Function { params: vec![TY_I64], ret: TY_I64, is_variadic: false });
    let want_callee = s.ch.ctx.types.intern(TypeKind::FnDef(0, vec![TY_I64]));
    assert_eq!(sig, want_sig);
    assert_eq!(inferred, Some(want_callee));
    assert_eq!(tys, Some(vec![Some(TY_I64)]));
    assert!(codes(&s.ch).is_empty());
    assert_ne!(s.id_sig, want_sig);
}

#[test]
fn deduce_reports_uninferable_generics() {
    let mut s = sigs();
    let callee = s.ch.ctx.types.intern(TypeKind::FnDef(1, vec![]));
    let (sig, inferred, tys) = s.ch.deduce_and_resolve_signature(callee, &vec![], false, TY_ERROR, sp(6), false);
    assert_eq!(sig, TY_ERROR);
    assert_eq!(inferred, None);
    assert_eq!(tys, Some(vec![]));
    assert_eq!(codes(&s.ch), vec![DiagCode::CannotInferGenerics]);
    assert_ne!(s.make_sig, TY_ERROR);
}

#[test]
fn deduce_with_explicit_arguments() {
    let mut s = sigs();
    let full = s.ch.ctx.types.intern(TypeKind::FnDef(0, vec![TY_U8]));
    let (sig, inferred, tys) = s.ch.deduce_and_resolve_signature(full, &vec![typed(TY_U8, 1)], false, TY_ERROR, sp(7), true);
    let want_sig = s.ch.ctx.types.intern(TypeKind::Function { params: vec![TY_U8], ret: TY_U8, is_variadic: false });
    assert_eq!((sig, inferred, tys), (want_sig, None, None));
    let too_many = s.ch.ctx.types.intern(TypeKind::FnDef(0, vec![TY_U8, TY_I32]));
    let (sig, _, _) = s.ch.deduce_and_resolve_signature(too_many, &vec![], false, TY_ERROR, sp(8), true);
    assert_eq!(sig, TY_ERROR);
    assert_eq!(codes(&s.ch), vec![DiagCode::TooManyGenericArgs]);
}

#[test]
fn deduce_leaves_plain_functions_alone() {
    let mut s = sigs();
    let callee = s.ch.ctx.types.intern(TypeKind::FnDef(3, vec![]));
    let plain_sig = match s.ch.ctx.defs[3] {
        Def::Function(ref f) => f.sig.unwrap(),
        _ => unreachable!(),
    };
    assert_eq!(s.ch.deduce_and_resolve_signature(callee, &vec![], false, TY_ERROR, sp(9), false), (plain_sig, None, None));
    assert_eq!(s.ch.deduce_and_resolve_signature(TY_I32, &vec![], false, TY_ERROR, sp(9), false), (TY_I32, None, None));
    assert!(codes(&s.ch).is_empty());
}

#[test]
fn deduce_strips_a_mutable_receiver() {
    let mut s = sigs();
    let callee = s.ch.ctx.types.intern(TypeKind::FnDef(2, vec![]));
    let (sig, inferred, tys) = s.ch.deduce_and_resolve_signature(callee, &vec![], true, s.mptr_i32, sp(10), false);
    let want_sig = s.ch.ctx.types.intern(TypeKind::Function { params: vec![s.cptr_i32], ret: TY_I32, is_variadic: false });
    let want_callee = s.ch.ctx.types.intern(TypeKind::FnDef(2, vec![TY_I32]));
    assert_eq!(sig, want_sig);
    assert_eq!(inferred, Some(want_callee));
    assert_eq!(tys, Some(vec![]));
    assert_ne!(s.get_sig, s.cptr_t);
}

#[test]
fn deduce_checks_where_bounds() {
    let mut s = sigs();
    let callee = s.ch.ctx.types.intern(TypeKind::FnDef(4, vec![]));
    let (_, inferred, _) = s.ch.deduce_and_resolve_signature(callee, &vec![typed(TY_I32, 1)], false, TY_ERROR, sp(11), false);
    assert!(inferred.is_some());
    assert_eq!(codes(&s.ch), vec![DiagCode::BoundNotSatisfied]);
    s.ch.ctx.diags.clear();
    s.ch.impls = vec![(TY_I32, s.trait_a)];
    let (_, inferred, _) = s.ch.deduce_and_resolve_signature(callee, &vec![typed(TY_I32, 1)], false, TY_ERROR, sp(11), false);
    assert!(inferred.is_some());
    assert!(codes(&s.ch).is_empty());
    assert_ne!(s.t, TY_ERROR);
}

#[test]
fn generic_arg_map_pairs_by_position() {
    let s = sigs();
    assert_eq!(s.ch.build_generic_arg_map(&vec![1, 2], &vec![TY_I32]), Some(vec![(1, TY_I32)]));
    assert_eq!(s.ch.build_generic_arg_map(&vec![1, 1], &vec![TY_I32, TY_U8]), Some(vec![(1, TY_U8), (1, TY_I32)]));
    assert_eq!(s.ch.build_generic_arg_map(&vec![], &vec![TY_I32]), None);
}

// ---- calls -------------------------------------------------------------------

fn ident(name: u32, ty: u32) -> Expr {
    Expr { span: sp(30), ty, kind: ExprKind::Identifier(name) }
}

#[test]
fn call_of_a_plain_function() {
    let mut s = sigs();
    let callee_ty = s.ch.ctx.types.intern(TypeKind::FnDef(3, vec![]));
    let r = s.ch.check_call(&ident(43, callee_ty), &vec![typed(TY_I32, 1)], sp(31), &NAMES, &MEMBERS);
    assert_eq!(r, TY_I32);
    assert!(codes(&s.ch).is_empty());
    let r = s.ch.check_call(&ident(43, callee_ty), &vec![], sp(32), &NAMES, &MEMBERS);
    assert_eq!(r, TY_I32);
    assert_eq!(codes(&s.ch), vec![DiagCode::ArgCountMismatch]);
}

#[test]
fn call_argument_mismatch_is_reported() {
    let mut s = sigs();
    let callee_ty = s.ch.ctx.types.intern(TypeKind::FnDef(3, vec![]));
    let r = s.ch.check_call(&ident(43, callee_ty), &vec![typed(TY_BOOL, 1)], sp(33), &NAMES, &MEMBERS);
    assert_eq!(r, TY_I32);
    assert_eq!(codes(&s.ch), vec![DiagCode::MismatchedTypes]);
}

#[test]
fn call_of_a_generic_function_infers_its_result() {
    let mut s = sigs();
    let callee_ty = s.ch.ctx.types.intern(TypeKind::FnDef(0, vec![]));
    let r = s.ch.check_call(&ident(40, callee_ty), &vec![typed(TY_I64, 1)], sp(34), &NAMES, &MEMBERS);
    assert_eq!(r, TY_I64);
    assert!(codes(&s.ch).is_empty());
}

#[test]
fn calling_what_is_not_callable() {
    let mut s = sigs();
    assert_eq!(s.ch.check_call(&ident(50, TY_I32), &vec![], sp(35), &NAMES, &MEMBERS), TY_ERROR);
    assert_eq!(codes(&s.ch), vec![DiagCode::NotCallable]);
    assert_eq!(s.ch.check_call(&ident(50, TY_ERROR), &vec![], sp(36), &NAMES, &MEMBERS), TY_ERROR);
    assert_eq!(codes(&s.ch), vec![DiagCode::NotCallable]);
}

#[test]
fn variadic_arguments_follow_the_c_promotions() {
    let mut s = sigs();
    let printf = s.ch.ctx.types.intern(TypeKind::Function { params: vec![TY_I32], ret: TY_I32, is_variadic: true });
    let args = vec![typed(TY_I32, 1), typed(TY_U8, 2), typed(TY_F32, 3), typed(TY_I64, 4)];
    let r = s.ch.check_call(&ident(51, printf), &args, sp(37), &NAMES, &MEMBERS);
    assert_eq!(r, TY_I32);
    let got: Vec<(DiagCode, u32)> = s.ch.ctx.diags.iter().map(|d| (d.code, d.span.line)).collect();
    assert_eq!(got, vec![(DiagCode::VarargIntTooSmall, 2), (DiagCode::VarargFloatTooSmall, 3)]);
    s.ch.ctx.diags.clear();
    s.ch.check_call(&ident(51, printf), &vec![], sp(38), &NAMES, &MEMBERS);
    assert_eq!(codes(&s.ch), vec![DiagCode::ArgCountMismatchAtLeast]);
}

#[test]
fn call_arity_rules() {
    let mut s = sigs();
    s.ch.check_call_arity(1, 2, true, false, sp(1));
    s.ch.check_call_arity(2, 2, false, false, sp(1));
    s.ch.check_call_arity(5, 2, false, true, sp(1));
    assert!(codes(&s.ch).is_empty());
    s.ch.check_call_arity(0, 2, true, false, sp(1));
    s.ch.check_call_arity(0, 0, true, false, sp(1));
    assert_eq!(codes(&s.ch), vec![DiagCode::ArgCountMismatch]);
}

#[test]
fn method_call_through_a_field_access() {
    let mut s = sigs();
    let callee_ty = s.ch.ctx.types.intern(TypeKind::FnDef(2, vec![]));
    let callee = Expr {
        span: sp(40),
        ty: callee_ty,
        kind: ExprKind::FieldAccess { lhs: Box::new(typed(s.mptr_i32, 41)), field: 42 },
    };
    assert_eq!(s.ch.resolve_method_context(&callee), (true, s.mptr_i32));
    assert_eq!(s.ch.resolve_method_context(&ident(42, callee_ty)), (false, TY_ERROR));
    let r = s.ch.check_call(&callee, &vec![], sp(42), &NAMES, &MEMBERS);
    assert_eq!(r, TY_I32);
    assert!(codes(&s.ch).is_empty());
}

#[test]
fn asm_calls_are_checked_on_their_own() {
    let mut s = sigs();
    let r = s.ch.check_call(&ident(99, TY_ERROR), &vec![], sp(43), &NAMES, &MEMBERS);
    assert_eq!(r, TY_ERROR);
    assert_eq!(codes(&s.ch), vec![DiagCode::AsmArgCount]);
}

// ---- `as` casts --------------------------------------------------------------

fn cast_codes(ch: &mut ExprChecker, from: u32, to: u32) -> Vec<DiagCode> {
    ch.ctx.diags.clear();
    ch.check_cast(sp(90), from, to);
    codes(ch)
}

#[test]
fn numeric_and_pointer_integer_casts_are_allowed() {
    let mut c = coerce_checker();
    assert!(cast_codes(&mut c.ch, TY_I32, TY_U8).is_empty());
    assert!(cast_codes(&mut c.ch, TY_BOOL, TY_I64).is_empty());
    assert!(cast_codes(&mut c.ch, TY_I32, TY_F32).is_empty());
    assert!(cast_codes(&mut c.ch, c.cptr_i32, TY_USIZE).is_empty());
    assert!(cast_codes(&mut c.ch, TY_USIZE, c.cptr_i32).is_empty());
    assert!(cast_codes(&mut c.ch, TY_USIZE, c.vptr_i32).is_empty());
    assert!(cast_codes(&mut c.ch, c.cptr_i32, c.mptr_i32).is_empty());
    assert!(cast_codes(&mut c.ch, c.fn_i32, c.cptr_void).is_empty());
}

#[test]
fn invalid_casts_are_reported() {
    let mut c = coerce_checker();
    assert_eq!(cast_codes(&mut c.ch, TY_I32, TY_BOOL), vec![DiagCode::InvalidCast]);
    assert_eq!(cast_codes(&mut c.ch, TY_I32, c.cptr_i32), vec![DiagCode::InvalidCast]);
    assert_eq!(cast_codes(&mut c.ch, c.slice_i32, TY_I32), vec![DiagCode::InvalidCast]);
    assert_eq!(cast_codes(&mut c.ch, TY_USIZE, c.cptr_a), vec![DiagCode::CastIntToFatPointer]);
}

#[test]
fn fat_pointer_casts() {
    let mut c = coerce_checker();
    let ptr_slice = c.ch.ctx.types.intern(TypeKind::Pointer { is_mut: false, elem: c.slice_i32 });
    assert_eq!(cast_codes(&mut c.ch, c.cptr_i32, ptr_slice), vec![DiagCode::CastPointerToSlice]);
    assert_eq!(cast_codes(&mut c.ch, c.cptr_i32, c.mptr_a), vec![DiagCode::CastImmutableToMutTraitObject]);
    assert!(cast_codes(&mut c.ch, c.cptr_i32, c.cptr_a).is_empty());
    let cptr_u8 = c.ch.ctx.types.intern(TypeKind::Pointer { is_mut: false, elem: TY_U8 });
    assert_eq!(cast_codes(&mut c.ch, cptr_u8, c.cptr_a), vec![DiagCode::CastToTraitObject]);
    assert_eq!(cast_codes(&mut c.ch, c.cptr_i32, c.miface_ptr), vec![DiagCode::CastImmutableToMutClosure]);
}

#[test]
fn as_expression_has_the_target_type() {
    let mut c = coerce_checker();
    let e = typed(TY_I32, 91);
    assert_eq!(c.ch.check_as_expr(&e, TY_U8), TY_U8);
    assert!(codes(&c.ch).is_empty());
    assert_eq!(c.ch.check_as_expr(&e, TY_BOOL), TY_BOOL);
    assert_eq!(codes(&c.ch), vec![DiagCode::InvalidCast]);
}

// ---- identifiers and accesses ----------------------------------------------

use kernc_sema::context::EnumVariant;

/// Symbols: 1 a variable of type i64, 2 a function (def 0), 3 an enum
/// (def 1: `enum { A, B(i32) }` with variants 11 and 12), 4 a module
/// (def 2, scope 1 declaring the struct 5), 6 a global (def 3) whose type is
/// not recorded yet, 7 `self`.
fn names_checker() -> ExprChecker {
    let mut c = ctx_with(TypeRegistry::new(8));
    let info = |kind: SymbolKind, def_id: Option<u32>, type_id: u32| SymbolInfo { kind, def_id, type_id, is_mut: false };
    c.scopes = vec![
        Scope {
            parent: None,
            module: None,
            symbols: vec![
                (1, info(SymbolKind::Var, None, TY_I64)),
                (2, info(SymbolKind::Function, Some(0), TY_ERROR)),
                (3, info(SymbolKind::Enum, Some(1), TY_ERROR)),
                (4, info(SymbolKind::Module, Some(2), TY_ERROR)),
                (6, info(SymbolKind::Const, Some(3), TY_ERROR)),
                (7, info(SymbolKind::Var, None, TY_U8)),
            ],
        },
        Scope { parent: None, module: Some(2), symbols: vec![(5, info(SymbolKind::Struct, Some(4), TY_ERROR))] },
    ];
    c.defs = vec![
        generic_fn(2, vec![], TY_ERROR, vec![]),
        Def::Enum {
            is_extern: false,
            generics: vec![],
            variants: vec![
                EnumVariant { name: 11, value: None, payload: None },
                EnumVariant { name: 12, value: None, payload: Some(TY_I32) },
            ],
        },
        Def::Module { scope_id: 1, items: vec![] },
        Def::Global { value: lit(3, TY_U8, 1) },
        Def::Other,
    ];
    ExprChecker::new(c)
}

#[test]
fn identifiers_name_their_types() {
    let mut ch = names_checker();
    assert_eq!(ch.check_identifier(1, sp(1)), TY_I64);
    let f = ch.check_identifier(2, sp(1));
    assert!(matches!(ch.ctx.types.get(f), TypeKind::FnDef(0, a) if a.is_empty()));
    let e = ch.check_identifier(3, sp(1));
    assert!(matches!(ch.ctx.types.get(e), TypeKind::Enum(1, a) if a.is_empty()));
    let m = ch.check_identifier(4, sp(1));
    assert!(matches!(ch.ctx.types.get(m), TypeKind::Module(2)));
    assert_eq!(ch.check_identifier(6, sp(1)), TY_U8);
    assert!(codes(&ch).is_empty());
    assert_eq!(ch.check_identifier(99, sp(2)), TY_ERROR);
    assert_eq!(codes(&ch), vec![DiagCode::UndeclaredIdentifier]);
}

#[test]
fn self_value_and_its_absence() {
    let mut ch = names_checker();
    assert_eq!(ch.check_self_value(sp(3), 7, 8), TY_U8);
    assert!(codes(&ch).is_empty());
    assert_eq!(ch.check_self_value(sp(3), 70, 80), TY_ERROR);
    assert_eq!(codes(&ch), vec![DiagCode::SelfUnavailable]);
}

#[test]
fn payloadless_variant_access() {
    let mut ch = names_checker();
    let e = ch.ctx.types.intern(TypeKind::Enum(1, vec![]));
    assert_eq!(ch.check_payloadless_enum_variant_access(e, 11, sp(4), sp(4)), Some(e));
    assert!(codes(&ch).is_empty());
    assert_eq!(ch.check_payloadless_enum_variant_access(e, 12, sp(4), sp(4)), Some(TY_ERROR));
    assert_eq!(ch.check_payloadless_enum_variant_access(e, 13, sp(4), sp(4)), Some(TY_ERROR));
    assert_eq!(codes(&ch), vec![DiagCode::VariantNeedsPayload, DiagCode::VariantNotFound]);
    assert_eq!(ch.check_payloadless_enum_variant_access(TY_I32, 11, sp(4), sp(4)), None);
    assert_eq!(ch.variant_payload_type(e, 12, sp(5)), Some(Some(TY_I32)));
    assert_eq!(ch.variant_payload_type(e, 11, sp(5)), Some(None));
    assert_eq!(ch.variant_payload_type(e, 13, sp(5)), None);
}

#[test]
fn type_namespaces() {
    let mut ch = names_checker();
    let m = ch.check_identifier(4, sp(1));
    let in_module = Expr { span: sp(6), ty: TY_ERROR, kind: ExprKind::FieldAccess { lhs: Box::new(typed(m, 6)), field: 5 } };
    assert!(ch.expr_is_type_namespace(&in_module));
    assert!(ch.expr_is_type_namespace(&ident(3, TY_ERROR)));
    assert!(!ch.expr_is_type_namespace(&ident(1, TY_ERROR)));
    assert!(ch.expr_is_type_namespace(&Expr { span: sp(6), ty: TY_ERROR, kind: ExprKind::TypeNode(TY_I32) }));
    assert!(codes(&ch).is_empty());
}

#[test]
fn indexing_arrays_slices_and_vectors() {
    let mut ch = names_checker();
    let arr = ch.ctx.types.intern(TypeKind::Array { is_mut: false, elem: TY_U8, len: 4 });
    let v4 = ch.ctx.types.intern(TypeKind::Simd { elem: TY_I32, lanes: 4 });
    assert_eq!(ch.check_index_access(&typed(arr, 1), &lit(2, TY_USIZE, 2), false, sp(7)), TY_U8);
    assert!(codes(&ch).is_empty());
    assert_eq!(ch.check_index_access(&typed(v4, 1), &lit(3, TY_USIZE, 2), false, sp(7)), TY_I32);
    assert_eq!(ch.check_index_access(&typed(v4, 1), &lit(4, TY_USIZE, 2), false, sp(7)), TY_ERROR);
    assert_eq!(codes(&ch), vec![DiagCode::SimdLaneOutOfBounds]);
    ch.ctx.diags.clear();
    assert_eq!(ch.check_index_access(&typed(TY_I32, 1), &lit(0, TY_USIZE, 2), true, sp(7)), TY_ERROR);
    assert_eq!(codes(&ch), vec![DiagCode::MutIndexUnsupported, DiagCode::NotIndexable]);
    ch.ctx.diags.clear();
    assert_eq!(ch.check_index_access(&typed(arr, 1), &typed(TY_BOOL, 2), false, sp(7)), TY_U8);
    assert_eq!(codes(&ch), vec![DiagCode::IndexNotInteger]);
}

#[test]
fn member_intrinsics_of_arrays_and_slices() {
    let mut ch = names_checker();
    let arr = ch.ctx.types.intern(TypeKind::Array { is_mut: false, elem: TY_U8, len: 4 });
    let open = ch.ctx.types.intern(TypeKind::ArrayInfer { is_mut: false, elem: TY_U8 });
    let sl = ch.ctx.types.intern(TypeKind::Slice { is_mut: true, elem: TY_I32 });
    assert_eq!(ch.member_intrinsic_call_result(arr, MemberIntrinsic::Len, 0, sp(1)), Some(TY_USIZE));
    let p = ch.member_intrinsic_call_result(arr, MemberIntrinsic::Ptr, 0, sp(1)).unwrap();
    assert!(matches!(ch.ctx.types.get(p), TypeKind::Pointer { is_mut: false, elem } if *elem == TY_U8));
    let q = ch.member_intrinsic_call_result(sl, MemberIntrinsic::Ptr, 0, sp(1)).unwrap();
    assert!(matches!(ch.ctx.types.get(q), TypeKind::Pointer { is_mut: true, elem } if *elem == TY_I32));
    assert_eq!(ch.member_intrinsic_call_result(sl, MemberIntrinsic::Len, 0, sp(1)), Some(TY_USIZE));
    assert_eq!(ch.member_intrinsic_call_result(arr, MemberIntrinsic::DataPtr, 0, sp(1)), None);
    assert_eq!(ch.member_intrinsic_call_result(TY_I32, MemberIntrinsic::Len, 0, sp(1)), None);
    assert!(codes(&ch).is_empty());
    assert_eq!(ch.member_intrinsic_call_result(open, MemberIntrinsic::Len, 0, sp(2)), Some(TY_ERROR));
    assert_eq!(ch.member_intrinsic_call_result(arr, MemberIntrinsic::Len, 1, sp(3)), Some(TY_ERROR));
    assert_eq!(codes(&ch), vec![DiagCode::LenOfInferredArray, DiagCode::MemberIntrinsicArgs]);
}

#[test]
fn member_intrinsics_of_fat_pointers() {
    let mut ch = names_checker();
    let obj = ch.ctx.types.intern(TypeKind::TraitObject(5, vec![]));
    let obj_ptr = ch.ctx.types.intern(TypeKind::Pointer { is_mut: true, elem: obj });
    let clo = ch.ctx.types.intern(TypeKind::ClosureInterface { params: vec![], ret: TY_VOID });
    let clo_ptr = ch.ctx.types.intern(TypeKind::Pointer { is_mut: false, elem: clo });
    let d = ch.member_intrinsic_call_result(obj_ptr, MemberIntrinsic::DataPtr, 0, sp(1)).unwrap();
    assert!(matches!(ch.ctx.types.get(d), TypeKind::Pointer { is_mut: true, elem } if *elem == TY_VOID));
    let v = ch.member_intrinsic_call_result(obj_ptr, MemberIntrinsic::VtablePtr, 0, sp(1)).unwrap();
    assert!(matches!(ch.ctx.types.get(v), TypeKind::Pointer { is_mut: false, elem } if *elem == TY_VOID));
    assert!(ch.member_intrinsic_call_result(clo_ptr, MemberIntrinsic::EntryPtr, 0, sp(1)).is_some());
    assert_eq!(ch.member_intrinsic_call_result(clo_ptr, MemberIntrinsic::DataPtr, 0, sp(1)), None);
    assert!(codes(&ch).is_empty());
}

#[test]
fn generic_instantiation_of_functions_and_enums() {
    let mut s = sigs();
    let f = s.ch.ctx.types.intern(TypeKind::FnDef(0, vec![]));
    let r = s.ch.check_generic_instantiation(&typed(f, 1), &vec![TY_I64], sp(2));
    assert!(matches!(s.ch.ctx.types.get(r), TypeKind::FnDef(0, a) if *a == vec![TY_I64]));
    assert!(codes(&s.ch).is_empty());
    assert_eq!(s.ch.check_generic_instantiation(&typed(f, 1), &vec![TY_I64, TY_I32], sp(3)), TY_ERROR);
    let plain = s.ch.ctx.types.intern(TypeKind::FnDef(3, vec![]));
    assert_eq!(s.ch.check_generic_instantiation(&typed(plain, 1), &vec![TY_I64], sp(4)), TY_ERROR);
    assert_eq!(s.ch.check_generic_instantiation(&typed(TY_I32, 1), &vec![TY_I64], sp(5)), TY_ERROR);
    assert_eq!(
        codes(&s.ch),
        vec![DiagCode::WrongGenericArgCount, DiagCode::WrongGenericArgCount, DiagCode::NotGenericTarget]
    );
    s.ch.ctx.diags.clear();
    assert_eq!(s.ch.check_generic_instantiation(&typed(TY_ERROR, 1), &vec![TY_I64], sp(6)), TY_ERROR);
    assert!(codes(&s.ch).is_empty());
    let b = s.ch.ctx.types.intern(TypeKind::FnDef(4, vec![]));
    let r = s.ch.check_generic_instantiation(&typed(b, 1), &vec![TY_I32], sp(7));
    assert!(matches!(s.ch.ctx.types.get(r), TypeKind::FnDef(4, a) if *a == vec![TY_I32]));
    assert_eq!(codes(&s.ch), vec![DiagCode::BoundNotSatisfied]);
}

#[test]
fn generic_instantiation_needs_a_scope() {
    let mut s = sigs();
    s.ch.ctx.current_scope = None;
    let f = s.ch.ctx.types.intern(TypeKind::FnDef(0, vec![]));
    assert_eq!(s.ch.check_generic_instantiation(&typed(f, 1), &vec![TY_I64], sp(2)), TY_ERROR);
    assert_eq!(codes(&s.ch), vec![DiagCode::MissingScope]);
}

#[test]
fn slicing_arrays_and_slices() {
    let mut ch = names_checker();
    let arr = ch.ctx.types.intern(TypeKind::Array { is_mut: false, elem: TY_U8, len: 4 });
    let r = ch.check_slice_op(&typed(arr, 1), &Some(Box::new(lit(0, TY_USIZE, 1))), &None, false, false, sp(2));
    assert!(matches!(ch.ctx.types.get(r), TypeKind::Slice { is_mut: false, elem } if *elem == TY_U8));
    assert!(codes(&ch).is_empty());
    assert_eq!(ch.check_slice_op(&typed(TY_I32, 3), &None, &None, false, false, sp(4)), TY_ERROR);
    assert_eq!(codes(&ch), vec![DiagCode::NotSliceable]);
    ch.ctx.diags.clear();
    let r = ch.check_slice_op(&typed(arr, 1), &Some(Box::new(typed(TY_BOOL, 1))), &None, false, false, sp(5));
    assert!(matches!(ch.ctx.types.get(r), TypeKind::Slice { .. }));
    assert_eq!(codes(&ch), vec![DiagCode::SliceBoundNotInteger]);
}

#[test]
fn trailing_arguments_report_narrow_types() {
    let mut s = sigs();
    let args = vec![typed(TY_U8, 1), typed(TY_F32, 2), typed(TY_I64, 3)];
    s.ch.check_call_arguments(&args, &vec![], false, true, &None);
    assert_eq!(codes(&s.ch), vec![DiagCode::VarargIntTooSmall, DiagCode::VarargFloatTooSmall]);
    s.ch.ctx.diags.clear();
    s.ch.check_call_arguments(&args, &vec![], false, true, &Some(vec![Some(TY_I64), None, None]));
    assert_eq!(codes(&s.ch), vec![DiagCode::VarargFloatTooSmall]);
}

#[test]
fn every_unmet_where_bound_is_reported() {
    let mut s = sigs();
    s.ch.check_generic_bounds(sp(9), 4, &vec![], &vec![]);
    assert_eq!(codes(&s.ch), vec![DiagCode::BoundNotSatisfied]);
    s.ch.ctx.diags.clear();
    s.ch.check_generic_bounds(sp(9), 0, &vec![9], &vec![TY_I32]);
    assert!(codes(&s.ch).is_empty());
}

#[test]
fn member_intrinsic_calls_are_typed_before_the_callee() {
    let mut ch = names_checker();
    let arr = ch.ctx.types.intern(TypeKind::Array { is_mut: false, elem: TY_U8, len: 4 });
    let len_call = Expr {
        span: sp(50),
        ty: TY_ERROR,
        kind: ExprKind::FieldAccess { lhs: Box::new(typed(arr, 50)), field: MEMBERS.len },
    };
    assert_eq!(ch.check_call(&len_call, &vec![], sp(50), &NAMES, &MEMBERS), TY_USIZE);
    assert!(codes(&ch).is_empty());
    assert_eq!(ch.check_call(&len_call, &vec![typed(TY_I32, 51)], sp(51), &NAMES, &MEMBERS), TY_ERROR);
    assert_eq!(codes(&ch), vec![DiagCode::MemberIntrinsicArgs]);
    let broken = Expr {
        span: sp(52),
        ty: TY_ERROR,
        kind: ExprKind::FieldAccess { lhs: Box::new(typed(TY_ERROR, 52)), field: 7 },
    };
    assert_eq!(ch.check_call(&broken, &vec![], sp(52), &NAMES, &MEMBERS), TY_ERROR);
    assert_eq!(codes(&ch), vec![DiagCode::MemberIntrinsicArgs]);
}
