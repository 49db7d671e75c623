//! The typed expression tree the checker and the constant evaluator read.
//! Each expression carries the type the checker assigned to it
//! (`TY_ERROR` where it has none).

use vstd::prelude::*;
use crate::types::{TypeId, SymbolId};
use crate::value::StrLit;

verus! {

/// A source position.
#[derive(Clone, Copy, Debug, PartialEq, Eq, Structural)]
pub struct Span {
    pub file: u32,
    pub line: u32,
    pub col: u32,
}

#[derive(Clone, Copy, Debug, PartialEq, Eq, Structural)]
pub enum BinaryOperator {
    Add,
    Subtract,
    Multiply,
    Divide,
    Modulo,
    ShiftLeft,
    ShiftRight,
    BitwiseAnd,
    BitwiseOr,
    BitwiseXor,
    LogicalAnd,
    LogicalOr,
    Equal,
    NotEqual,
    LessThan,
    LessOrEqual,
    GreaterThan,
    GreaterOrEqual,
}

#[derive(Clone, Copy, Debug, PartialEq, Eq, Structural)]
pub enum UnaryOperator {
    Negate,
    BitwiseNot,
    LogicalNot,
    AddressOf,
    MutAddressOf,
    PointerDeRef,
    MetaOf,
}

#[derive(Clone, Copy, Debug, PartialEq, Eq, Structural)]
pub enum AssignmentOperator {
    Assign,
    AddAssign,
    SubtractAssign,
    MultiplyAssign,
    DivideAssign,
    ModuloAssign,
    BitwiseAndAssign,
    BitwiseOrAssign,
    BitwiseXorAssign,
    ShiftLeftAssign,
    ShiftRightAssign,
}

/// A pattern of `let` and of match arms.
#[derive(Debug)]
pub enum Pattern {
    Binding { name: SymbolId, is_mut: bool },
    Ignore,
    /// `.Variant` or `.Variant(binding)` on an enum value.
    Variant { name: SymbolId, binding: Option<SymbolId> },
    /// `.{ field: pattern, ... }`.
    Destructure(Vec<FieldPattern>),
}

#[derive(Debug)]
pub struct FieldPattern {
    pub name: SymbolId,
    pub pattern: Pattern,
}

#[derive(Debug)]
pub enum MatchPattern {
    Value(Expr),
    Range { start: Expr, end: Expr, inclusive: bool },
    Variant { name: SymbolId, binding: Option<SymbolId> },
    Pattern(Pattern),
    CatchAll,
}

#[derive(Debug)]
pub struct MatchArm {
    pub patterns: Vec<MatchPattern>,
    pub body: Expr,
}

#[derive(Debug)]
pub struct FieldInit {
    pub name: SymbolId,
    pub value: Expr,
    pub span: Span,
}

#[derive(Debug)]
pub enum DataLiteral {
    Scalar(Box<Expr>),
    Array(Vec<Expr>),
    Struct(Vec<FieldInit>),
    Repeat { value: Box<Expr>, count: Box<Expr> },
}

#[derive(Debug)]
pub struct ElseArm {
    pub pattern: Pattern,
    pub body: Expr,
}

#[derive(Debug)]
pub enum LetElse {
    Expr(Box<Expr>),
    Arms(Vec<ElseArm>),
}

#[derive(Debug)]
pub enum ExprKind {
    Integer(u128),
    Bool(bool),
    Char(u32),
    ByteChar(u8),
    Str(StrLit),
    Undef,
    /// `_`, the discard target of an assignment.
    Infer,
    Grouped(Box<Expr>),
    Binary { lhs: Box<Expr>, op: BinaryOperator, rhs: Box<Expr> },
    Unary { op: UnaryOperator, operand: Box<Expr> },
    As { lhs: Box<Expr> },
    Identifier(SymbolId),
    SelfValue,
    Call { callee: Box<Expr>, args: Vec<Expr> },
    EnumLiteral(SymbolId),
    DataInit { literal: DataLiteral, typed: bool },
    Let { pattern: Pattern, init: Box<Expr>, else_clause: Option<LetElse> },
    Block { stmts: Vec<Expr>, result: Option<Box<Expr>> },
    If { cond: Box<Expr>, then_branch: Box<Expr>, else_branch: Option<Box<Expr>> },
    Match { target: Box<Expr>, arms: Vec<MatchArm> },
    While { cond: Box<Expr>, body: Box<Expr> },
    Assign { lhs: Box<Expr>, op: AssignmentOperator, rhs: Box<Expr> },
    Break,
    Continue,
    Return(Option<Box<Expr>>),
    FieldAccess { lhs: Box<Expr>, field: SymbolId },
    IndexAccess { lhs: Box<Expr>, index: Box<Expr> },
    GenericInstantiation { target: Box<Expr>, args: Vec<TypeId> },
    /// A type written in value position.
    TypeNode(TypeId),
    /// `static`, `defer` and closures, which constant evaluation refuses.
    Unsupported,
}

#[derive(Debug)]
pub struct Expr {
    pub span: Span,
    pub ty: TypeId,
    pub kind: ExprKind,
}

} // verus!
