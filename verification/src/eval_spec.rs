//! What constant evaluation computes, written as spec functions over the
//! expression tree. The side-effect-free part of the language (literals,
//! operators, casts, conditionals and aggregate literals) is described
//! exactly; `pure_sem` is `None` on forms that read or write evaluator state.

use vstd::prelude::*;
use vstd::arithmetic::power2::pow2;
use crate::types::{TypeId, SymbolId, TypeKind, PrimitiveType, TypeRegistry, primitive_size, TY_ERROR};
use crate::ast::{Expr, ExprKind, BinaryOperator, UnaryOperator, DataLiteral};
use crate::value::{ConstValue, Values, ConstBinaryOp, binary_spec};
use crate::arith::{truncate_bits, wrap};
use crate::eval_state::{ConstEvalError, GenericArg, lookup_scopes};

verus! {

/// Recursion limit of constant evaluation.
pub const MAX_CONST_DEPTH: usize = 100;

/// The constant-evaluation operator of a binary operator of the language.
pub open spec fn const_binary_op_spec(op: BinaryOperator) -> ConstBinaryOp {
    match op {
        BinaryOperator::Add => ConstBinaryOp::Add,
        BinaryOperator::Subtract => ConstBinaryOp::Subtract,
        BinaryOperator::Multiply => ConstBinaryOp::Multiply,
        BinaryOperator::Divide => ConstBinaryOp::Divide,
        BinaryOperator::Modulo => ConstBinaryOp::Modulo,
        BinaryOperator::ShiftLeft => ConstBinaryOp::ShiftLeft,
        BinaryOperator::ShiftRight => ConstBinaryOp::ShiftRight,
        BinaryOperator::BitwiseAnd => ConstBinaryOp::BitwiseAnd,
        BinaryOperator::BitwiseOr => ConstBinaryOp::BitwiseOr,
        BinaryOperator::BitwiseXor => ConstBinaryOp::BitwiseXor,
        BinaryOperator::LogicalAnd => ConstBinaryOp::LogicalAnd,
        BinaryOperator::LogicalOr => ConstBinaryOp::LogicalOr,
        BinaryOperator::Equal => ConstBinaryOp::Equal,
        BinaryOperator::NotEqual => ConstBinaryOp::NotEqual,
        BinaryOperator::LessThan => ConstBinaryOp::LessThan,
        BinaryOperator::LessOrEqual => ConstBinaryOp::LessOrEqual,
        BinaryOperator::GreaterThan => ConstBinaryOp::GreaterThan,
        BinaryOperator::GreaterOrEqual => ConstBinaryOp::GreaterOrEqual,
    }
}

/// `t` where it names a type of the registry, the error type otherwise.
pub open spec fn known_ty(types: TypeRegistry, t: TypeId) -> TypeId {
    if types.valid(t) {
        t
    } else {
        TY_ERROR
    }
}

/// The type of a node seen through the generic substitutions in force: a
/// parameter bound to a type by the innermost substitution naming it is
/// replaced by that type.
pub open spec fn resolve_ty(
    types: TypeRegistry,
    substs: Seq<Seq<(SymbolId, GenericArg)>>,
    t: TypeId,
) -> TypeId {
    let n = types.norm(known_ty(types, t));
    match types.kind(n) {
        TypeKind::Param(name) => match lookup_scopes(substs, name) {
            Some(GenericArg::Type(u)) => types.norm(known_ty(types, u)),
            _ => n,
        },
        _ => n,
    }
}

pub open spec fn unsigned_prim(types: TypeRegistry, t: TypeId) -> bool {
    types.kind(t) matches TypeKind::Primitive(p) && p.is_unsigned_int()
}

/// An integer literal, possibly negated or wrapped in a scalar literal:
/// whether it is negated, and its magnitude.
pub open spec fn literal_magnitude(e: Expr) -> Option<(bool, u128)>
    decreases e,
{
    match e.kind {
        ExprKind::Integer(v) => Some((false, v)),
        ExprKind::Unary { op, operand } => if op == UnaryOperator::Negate {
            match operand.kind {
                ExprKind::Integer(v) => Some((true, v)),
                _ => None,
            }
        } else {
            None
        },
        ExprKind::DataInit { literal, .. } => match literal {
            DataLiteral::Scalar(inner) => literal_magnitude(*inner),
            _ => None,
        },
        _ => None,
    }
}

/// Width in bits of a primitive type.
pub open spec fn prim_bits(p: PrimitiveType, ptr: u64) -> nat {
    match primitive_size(p, ptr) {
        Some(s) => 8 * s as nat,
        None => 0,
    }
}

/// A literal written for an integer type of `bits` bits takes its value
/// there, or is refused as out of range.
pub open spec fn bind_literal(p: PrimitiveType, bits: nat, neg: bool, mag: u128) -> Result<
    ConstValue,
    ConstEvalError,
> {
    if p.is_unsigned_int() {
        if neg || (bits < 128 && mag >= pow2(bits)) {
            Err(ConstEvalError)
        } else {
            Ok(ConstValue::Int(mag as i128))
        }
    } else {
        let half = pow2((bits - 1) as nat);
        if neg {
            if mag > half {
                Err(ConstEvalError)
            } else {
                Ok(ConstValue::Int((-(mag as int)) as i128))
            }
        } else if mag >= half {
            Err(ConstEvalError)
        } else {
            Ok(ConstValue::Int(mag as i128))
        }
    }
}

/// A computed integer given an integer type of `bits` bits: unsigned values
/// wrap to the width, signed ones out of range are refused.
pub open spec fn fit_int(p: PrimitiveType, bits: nat, x: i128) -> Result<ConstValue, ConstEvalError> {
    if p.is_unsigned_int() {
        if bits < 128 {
            Ok(ConstValue::Int(truncate_bits(x as int, bits) as i128))
        } else {
            Ok(ConstValue::Int(x))
        }
    } else if bits < 128 {
        let half = pow2((bits - 1) as nat);
        if -half <= x < half {
            Ok(ConstValue::Int(x))
        } else {
            Err(ConstEvalError)
        }
    } else {
        Ok(ConstValue::Int(x))
    }
}

/// The check every evaluated value passes: an integer given a primitive type
/// `norm` is bound to it.
pub open spec fn post_check(types: TypeRegistry, norm: TypeId, e: Expr, v: ConstValue) -> Result<
    ConstValue,
    ConstEvalError,
> {
    match v {
        ConstValue::Int(x) => match types.kind(norm) {
            TypeKind::Primitive(p) => {
                let size = primitive_size(p, types.ptr_bytes());
                let bits = prim_bits(p, types.ptr_bytes());
                match literal_magnitude(e) {
                    Some((neg, mag)) => if size is None {
                        Err(ConstEvalError)
                    } else if p.is_int() {
                        bind_literal(p, bits, neg, mag)
                    } else {
                        Ok(ConstValue::Int(x))
                    },
                    None => if p.is_int() {
                        fit_int(p, bits, x)
                    } else {
                        Ok(ConstValue::Int(x))
                    },
                }
            },
            _ => Ok(ConstValue::Int(x)),
        },
        _ => Ok(v),
    }
}

/// An integer cast to a type of `size` bytes keeps the low bits.
pub open spec fn cast_int(size: u64, v: i128) -> i128 {
    if size >= 16 {
        v
    } else {
        truncate_bits(v as int, 8 * size as nat) as i128
    }
}

pub open spec fn unary_sem(op: UnaryOperator, v: ConstValue, operand_unsigned: bool) -> Result<
    ConstValue,
    ConstEvalError,
> {
    match v {
        ConstValue::Int(x) => if op == UnaryOperator::Negate {
            if operand_unsigned {
                Err(ConstEvalError)
            } else {
                Ok(ConstValue::Int(wrap(-(x as int)) as i128))
            }
        } else if op == UnaryOperator::BitwiseNot {
            Ok(ConstValue::Int(!x))
        } else {
            Err(ConstEvalError)
        },
        ConstValue::Bool(b) => if op == UnaryOperator::LogicalNot {
            Ok(ConstValue::Bool(!b))
        } else {
            Err(ConstEvalError)
        },
        _ => Err(ConstEvalError),
    }
}

pub open spec fn map_arith<E>(r: Result<ConstValue, E>) -> Result<ConstValue, ConstEvalError> {
    match r {
        Ok(v) => Ok(v),
        Err(_) => Err(ConstEvalError),
    }
}

/// The values of a list of expressions evaluated at `depth`, in order; the
/// first error stops the list.
pub open spec fn pure_list(
    types: TypeRegistry,
    substs: Seq<Seq<(SymbolId, GenericArg)>>,
    es: Seq<Expr>,
    depth: int,
) -> Option<Result<Seq<ConstValue>, ConstEvalError>>
    decreases 101 - depth, es.len() + 3,
{
    if es.len() == 0 {
        Some(Ok(Seq::empty()))
    } else if depth > 101 {
        Some(Err(ConstEvalError))
    } else {
        match pure_sem(types, substs, es[0], depth) {
            Some(Ok(v)) => match pure_list(types, substs, es.drop_first(), depth) {
                Some(Ok(vs)) => Some(Ok(seq![v] + vs)),
                Some(Err(e)) => Some(Err(e)),
                None => None,
            },
            Some(Err(e)) => Some(Err(e)),
            None => None,
        }
    }
}

/// A binary operator applied to two operands evaluated one level deeper.
pub open spec fn raw_binary(
    types: TypeRegistry,
    substs: Seq<Seq<(SymbolId, GenericArg)>>,
    lhs: Expr,
    op: BinaryOperator,
    rhs: Expr,
    depth: int,
) -> Option<Result<ConstValue, ConstEvalError>>
    decreases 101 - depth, 0int,
{
    if depth > 100 {
        Some(Err(ConstEvalError))
    } else {
        match pure_sem(types, substs, lhs, depth + 1) {
            Some(Ok(l)) => match pure_sem(types, substs, rhs, depth + 1) {
                Some(Ok(r)) => Some(
                    map_arith(
                        binary_spec(
                            l,
                            const_binary_op_spec(op),
                            r,
                            unsigned_prim(types, resolve_ty(types, substs, lhs.ty)),
                        ),
                    ),
                ),
                other => other,
            },
            other => other,
        }
    }
}

/// A unary operator: a negated integer literal folds to its negation;
/// negation, bitwise and logical not apply to the operand's value.
pub open spec fn raw_unary(
    types: TypeRegistry,
    substs: Seq<Seq<(SymbolId, GenericArg)>>,
    op: UnaryOperator,
    operand: Expr,
    depth: int,
) -> Option<Result<ConstValue, ConstEvalError>>
    decreases 101 - depth, 0int,
{
    if depth > 100 {
        Some(Err(ConstEvalError))
    } else if op == UnaryOperator::Negate && operand.kind is Integer {
        match operand.kind {
            ExprKind::Integer(v) => Some(Ok(ConstValue::Int(wrap(-((v as i128) as int)) as i128))),
            _ => None,
        }
    } else if op == UnaryOperator::Negate || op == UnaryOperator::BitwiseNot || op
        == UnaryOperator::LogicalNot {
        match pure_sem(types, substs, operand, depth + 1) {
            Some(Ok(v)) => Some(
                unary_sem(op, v, unsigned_prim(types, resolve_ty(types, substs, operand.ty))),
            ),
            other => other,
        }
    } else {
        None
    }
}

/// An `as` cast of `lhs` to the type `target`.
pub open spec fn raw_cast(
    types: TypeRegistry,
    substs: Seq<Seq<(SymbolId, GenericArg)>>,
    lhs: Expr,
    target: TypeId,
    depth: int,
) -> Option<Result<ConstValue, ConstEvalError>>
    decreases 101 - depth, 0int,
{
    if depth > 100 {
        Some(Err(ConstEvalError))
    } else {
        match pure_sem(types, substs, lhs, depth + 1) {
            Some(Ok(ConstValue::Int(v))) => match types.size_of(resolve_ty(types, substs, target)) {
                Some(size) => Some(Ok(ConstValue::Int(cast_int(size, v)))),
                None => Some(Err(ConstEvalError)),
            },
            Some(Ok(_)) => Some(Err(ConstEvalError)),
            other => other,
        }
    }
}

/// A conditional: the branch its boolean condition selects.
pub open spec fn raw_if(
    types: TypeRegistry,
    substs: Seq<Seq<(SymbolId, GenericArg)>>,
    cond: Expr,
    then_branch: Expr,
    else_branch: Option<Box<Expr>>,
    depth: int,
) -> Option<Result<ConstValue, ConstEvalError>>
    decreases 101 - depth, 0int,
{
    if depth > 100 {
        Some(Err(ConstEvalError))
    } else {
        match pure_sem(types, substs, cond, depth + 1) {
            Some(Ok(ConstValue::Bool(true))) => pure_sem(types, substs, then_branch, depth + 1),
            Some(Ok(ConstValue::Bool(false))) => match else_branch {
                Some(b) => pure_sem(types, substs, *b, depth + 1),
                None => Some(Ok(ConstValue::Void)),
            },
            Some(Ok(_)) => Some(Err(ConstEvalError)),
            other => other,
        }
    }
}

/// An aggregate literal of the non-enum type `target`: a scalar literal is
/// its inner value, an array literal the array of its elements.
pub open spec fn raw_data_init(
    types: TypeRegistry,
    substs: Seq<Seq<(SymbolId, GenericArg)>>,
    literal: DataLiteral,
    target: TypeId,
    depth: int,
) -> Option<Result<ConstValue, ConstEvalError>>
    decreases 101 - depth, 0int,
{
    if depth > 100 {
        Some(Err(ConstEvalError))
    } else if types.kind(resolve_ty(types, substs, target)) is Enum {
        None
    } else {
        match literal {
            DataLiteral::Scalar(inner) => pure_sem(types, substs, *inner, depth + 1),
            DataLiteral::Array(elems) => match pure_list(types, substs, elems@, depth + 1) {
                Some(Ok(vs)) => Some(Ok(ConstValue::Array(values_of(vs)))),
                Some(Err(e)) => Some(Err(e)),
                None => None,
            },
            _ => None,
        }
    }
}

/// The value of `e` evaluated at recursion depth `depth`, where `e` is made of
/// literals, operators, casts, conditionals and aggregate literals of
/// non-enum types; `None` on any other form.
pub open spec fn pure_sem(
    types: TypeRegistry,
    substs: Seq<Seq<(SymbolId, GenericArg)>>,
    e: Expr,
    depth: int,
) -> Option<Result<ConstValue, ConstEvalError>>
    decreases 101 - depth, 2int,
{
    if depth > 100 {
        Some(Err(ConstEvalError))
    } else {
        match raw_sem(types, substs, e, depth) {
            Some(Ok(v)) => Some(post_check(types, resolve_ty(types, substs, e.ty), e, v)),
            other => other,
        }
    }
}

/// The value of `e` before the post-evaluation checks.
pub open spec fn raw_sem(
    types: TypeRegistry,
    substs: Seq<Seq<(SymbolId, GenericArg)>>,
    e: Expr,
    depth: int,
) -> Option<Result<ConstValue, ConstEvalError>>
    decreases 101 - depth, 1int,
{
    if depth > 100 {
        Some(Err(ConstEvalError))
    } else {
        match e.kind {
            ExprKind::Integer(v) => Some(Ok(ConstValue::Int(v as i128))),
            ExprKind::Bool(b) => Some(Ok(ConstValue::Bool(b))),
            ExprKind::Char(c) => Some(Ok(ConstValue::Int(c as i128))),
            ExprKind::ByteChar(c) => Some(Ok(ConstValue::Int(c as i128))),
            ExprKind::Str(s) => Some(Ok(ConstValue::Str(s))),
            ExprKind::Undef => Some(Ok(ConstValue::Undef)),
            ExprKind::Grouped(inner) => pure_sem(types, substs, *inner, depth + 1),
            ExprKind::Binary { lhs, op, rhs } => raw_binary(types, substs, *lhs, op, *rhs, depth),
            ExprKind::Unary { op, operand } => raw_unary(types, substs, op, *operand, depth),
            ExprKind::As { lhs } => raw_cast(types, substs, *lhs, e.ty, depth),
            ExprKind::If { cond, then_branch, else_branch } => raw_if(
                types,
                substs,
                *cond,
                *then_branch,
                else_branch,
                depth,
            ),
            ExprKind::DataInit { literal, .. } => raw_data_init(types, substs, literal, e.ty, depth),
            _ => None,
        }
    }
}

/// The array constant holding `vs`.
pub open spec fn values_of(vs: Seq<ConstValue>) -> Values
    decreases vs.len(),
{
    if vs.len() == 0 {
        Values::Nil
    } else {
        Values::Cons(Box::new(vs[0]), Box::new(values_of(vs.drop_first())))
    }
}

pub proof fn lemma_values_of_seq(vs: Seq<ConstValue>)
    ensures
        values_of(vs).seq() == vs,
    decreases vs.len(),
{
    if vs.len() > 0 {
        lemma_values_of_seq(vs.drop_first());
        assert(seq![vs[0]].add(vs.drop_first()) =~= vs);
    }
}

pub proof fn lemma_seq_values_of(v: Values)
    ensures
        values_of(v.seq()) == v,
    decreases v,
{
    if let Values::Cons(h, t) = v {
        lemma_seq_values_of(*t);
        assert((seq![*h].add(t.seq())).drop_first() =~= t.seq());
    }
}

/// A usize-like constant: a non-negative integer that fits in 64 bits.
pub open spec fn usize_of(r: Result<ConstValue, ConstEvalError>) -> Result<u64, ConstEvalError> {
    match r {
        Ok(ConstValue::Int(v)) => if 0 <= v <= u64::MAX {
            Ok(v as u64)
        } else {
            Err(ConstEvalError)
        },
        _ => Err(ConstEvalError),
    }
}

/// An integer constant.
pub open spec fn int_of(r: Result<ConstValue, ConstEvalError>) -> Result<i128, ConstEvalError> {
    match r {
        Ok(ConstValue::Int(v)) => Ok(v),
        _ => Err(ConstEvalError),
    }
}

} // verus!
