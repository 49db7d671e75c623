//! Compile-time constant values. Aggregates are linked lists so that two
//! values are equal exactly when their contents are.

use vstd::prelude::*;
use crate::types::SymbolId;
use crate::arith::{wrap, trunc_div, trunc_rem, shift_spec, int_add, int_sub, int_mul, eval_const_int_division, eval_const_int_modulo, eval_const_int_shift, ConstArithmeticError};

verus! {

/// A string literal: which literal, and its length in bytes.
#[derive(Clone, Copy, Debug, PartialEq, Eq, Structural)]
pub struct StrLit {
    pub id: u32,
    pub len: u64,
}

#[derive(Clone, Copy, Debug, PartialEq, Eq, Structural)]
pub enum PlaceSegment {
    Field(SymbolId),
    Index(usize),
}

#[derive(Debug)]
pub enum ConstValue {
    Int(i128),
    Bool(bool),
    Str(StrLit),
    Array(Values),
    Struct(Fields),
    Enum { tag: i128, payload: Option<Box<ConstValue>> },
    /// A pointer to a local binding, or to a part of one reached by `path`.
    Pointer { root_scope: usize, root_name: SymbolId, path: Path, is_mut: bool },
    Void,
    Undef,
}

/// The elements of an array constant, in order.
#[derive(Debug)]
pub enum Values {
    Nil,
    Cons(Box<ConstValue>, Box<Values>),
}

/// The fields of a struct constant. A name may occur once only.
#[derive(Debug)]
pub enum Fields {
    Nil,
    Cons(SymbolId, Box<ConstValue>, Box<Fields>),
}

/// The steps from a local binding to a part of it.
#[derive(Debug)]
pub enum Path {
    Nil,
    Cons(PlaceSegment, Box<Path>),
}

impl Values {
    pub open spec fn seq(self) -> Seq<ConstValue>
        decreases self,
    {
        match self {
            Values::Nil => Seq::empty(),
            Values::Cons(h, t) => seq![*h].add(t.seq()),
        }
    }

    pub fn from_vec(v: Vec<ConstValue>) -> (r: Values)
        ensures
            r.seq() == v@,
    {
        let mut v = v;
        let mut r = Values::Nil;
        let ghost orig = v@;
        while v.len() > 0
            invariant
                orig == v@ + r.seq(),
            decreases v@.len(),
        {
            let x = v.pop().unwrap();
            let ghost vv = v@;
            r = Values::Cons(Box::new(x), Box::new(r));
            assert(orig =~= vv + r.seq());
        }
        assert(orig =~= r.seq());
        r
    }

    pub fn len(&self) -> (n: usize)
        requires
            self.seq().len() <= usize::MAX,
        ensures
            n == self.seq().len(),
        decreases self,
    {
        match self {
            Values::Nil => 0,
            Values::Cons(_, t) => 1 + t.len(),
        }
    }

    pub fn get(&self, i: usize) -> (r: Option<&ConstValue>)
        ensures
            i < self.seq().len() ==> r == Some(&self.seq()[i as int]),
            i >= self.seq().len() ==> r is None,
        decreases self,
    {
        match self {
            Values::Nil => None,
            Values::Cons(h, t) => {
                if i == 0 {
                    Some(&**h)
                } else {
                    t.get(i - 1)
                }
            },
        }
    }

    pub fn copy(&self) -> (r: Values)
        ensures
            r == *self,
        decreases self,
    {
        match self {
            Values::Nil => Values::Nil,
            Values::Cons(h, t) => Values::Cons(Box::new(h.copy()), Box::new(t.copy())),
        }
    }

    /// `n` copies of `v`.
    pub fn repeat(v: &ConstValue, n: u64) -> (r: Values)
        ensures
            r.seq() == Seq::new(n as nat, |i: int| *v),
    {
        let mut r = Values::Nil;
        let mut i: u64 = 0;
        while i < n
            invariant
                i <= n,
                r.seq() == Seq::new(i as nat, |j: int| *v),
            decreases n - i,
        {
            let ghost old_seq = r.seq();
            r = Values::Cons(Box::new(v.copy()), Box::new(r));
            assert(r.seq() =~= Seq::new((i + 1) as nat, |j: int| *v));
            i = i + 1;
        }
        r
    }
}

impl Fields {
    /// The value of field `name`.
    pub open spec fn lookup(self, name: SymbolId) -> Option<ConstValue>
        decreases self,
    {
        match self {
            Fields::Nil => None,
            Fields::Cons(n, v, t) => if n == name {
                Some(*v)
            } else {
                t.lookup(name)
            },
        }
    }

    pub open spec fn names(self) -> Seq<SymbolId>
        decreases self,
    {
        match self {
            Fields::Nil => Seq::empty(),
            Fields::Cons(n, _, t) => seq![n].add(t.names()),
        }
    }

    /// `self` with field `name` set to `v`: replaced where it exists, added at
    /// the end where it does not.
    pub open spec fn set(self, name: SymbolId, v: ConstValue) -> Fields
        decreases self,
    {
        match self {
            Fields::Nil => Fields::Cons(name, Box::new(v), Box::new(Fields::Nil)),
            Fields::Cons(n, w, t) => if n == name {
                Fields::Cons(n, Box::new(v), t)
            } else {
                Fields::Cons(n, w, Box::new(t.set(name, v)))
            },
        }
    }

    pub proof fn lemma_set_lookup(self, name: SymbolId, v: ConstValue, other: SymbolId)
        ensures
            self.set(name, v).lookup(name) == Some(v),
            other != name ==> self.set(name, v).lookup(other) == self.lookup(other),
        decreases self,
    {
        if let Fields::Cons(n, w, t) = self {
            t.lemma_set_lookup(name, v, other);
        }
    }

    pub fn get(&self, name: SymbolId) -> (r: Option<&ConstValue>)
        ensures
            r matches Some(x) ==> self.lookup(name) == Some(*x),
            r is None ==> self.lookup(name) is None,
        decreases self,
    {
        match self {
            Fields::Nil => None,
            Fields::Cons(n, v, t) => {
                if *n == name {
                    Some(&**v)
                } else {
                    t.get(name)
                }
            },
        }
    }

    pub fn insert(self, name: SymbolId, v: ConstValue) -> (r: Fields)
        ensures
            r == self.set(name, v),
        decreases self,
    {
        match self {
            Fields::Nil => Fields::Cons(name, Box::new(v), Box::new(Fields::Nil)),
            Fields::Cons(n, w, t) => {
                if n == name {
                    Fields::Cons(n, Box::new(v), t)
                } else {
                    Fields::Cons(n, w, Box::new(t.insert(name, v)))
                }
            },
        }
    }

    pub fn copy(&self) -> (r: Fields)
        ensures
            r == *self,
        decreases self,
    {
        match self {
            Fields::Nil => Fields::Nil,
            Fields::Cons(n, v, t) => Fields::Cons(*n, Box::new(v.copy()), Box::new(t.copy())),
        }
    }
}

impl Path {
    pub open spec fn seq(self) -> Seq<PlaceSegment>
        decreases self,
    {
        match self {
            Path::Nil => Seq::empty(),
            Path::Cons(h, t) => seq![h].add(t.seq()),
        }
    }

    /// `self` with `seg` added at the end.
    pub open spec fn append_seg(self, seg: PlaceSegment) -> Path
        decreases self,
    {
        match self {
            Path::Nil => Path::Cons(seg, Box::new(Path::Nil)),
            Path::Cons(h, t) => Path::Cons(h, Box::new(t.append_seg(seg))),
        }
    }

    pub proof fn lemma_append_seg_seq(self, seg: PlaceSegment)
        ensures
            self.append_seg(seg).seq() == self.seq().push(seg),
        decreases self,
    {
        if let Path::Cons(h, t) = self {
            t.lemma_append_seg_seq(seg);
            assert(self.append_seg(seg).seq() =~= self.seq().push(seg));
        } else {
            assert(self.append_seg(seg).seq() =~= self.seq().push(seg));
        }
    }

    pub fn push(self, seg: PlaceSegment) -> (r: Path)
        ensures
            r == self.append_seg(seg),
        decreases self,
    {
        match self {
            Path::Nil => Path::Cons(seg, Box::new(Path::Nil)),
            Path::Cons(h, t) => Path::Cons(h, Box::new(t.push(seg))),
        }
    }

    pub fn copy(&self) -> (r: Path)
        ensures
            r == *self,
        decreases self,
    {
        match self {
            Path::Nil => Path::Nil,
            Path::Cons(h, t) => Path::Cons(*h, Box::new(t.copy())),
        }
    }
}

impl ConstValue {
    pub fn copy(&self) -> (r: ConstValue)
        ensures
            r == *self,
        decreases self,
    {
        match self {
            ConstValue::Int(v) => ConstValue::Int(*v),
            ConstValue::Bool(b) => ConstValue::Bool(*b),
            ConstValue::Str(s) => ConstValue::Str(*s),
            ConstValue::Array(items) => ConstValue::Array(items.copy()),
            ConstValue::Struct(fields) => ConstValue::Struct(fields.copy()),
            ConstValue::Enum { tag, payload } => ConstValue::Enum {
                tag: *tag,
                payload: match payload {
                    Some(p) => Some(Box::new(p.copy())),
                    None => None,
                },
            },
            ConstValue::Pointer { root_scope, root_name, path, is_mut } => ConstValue::Pointer {
                root_scope: *root_scope,
                root_name: *root_name,
                path: path.copy(),
                is_mut: *is_mut,
            },
            ConstValue::Void => ConstValue::Void,
            ConstValue::Undef => ConstValue::Undef,
        }
    }

    /// Decides equality of two values.
    pub fn same(&self, other: &ConstValue) -> (r: bool)
        ensures
            r == (*self == *other),
        decreases self,
    {
        match (self, other) {
            (ConstValue::Int(a), ConstValue::Int(b)) => *a == *b,
            (ConstValue::Bool(a), ConstValue::Bool(b)) => *a == *b,
            (ConstValue::Str(a), ConstValue::Str(b)) => *a == *b,
            (ConstValue::Array(a), ConstValue::Array(b)) => a.same(b),
            (ConstValue::Struct(a), ConstValue::Struct(b)) => a.same(b),
            (
                ConstValue::Enum { tag: t1, payload: p1 },
                ConstValue::Enum { tag: t2, payload: p2 },
            ) => {
                if *t1 != *t2 {
                    false
                } else {
                    match (p1, p2) {
                        (None, None) => true,
                        (Some(a), Some(b)) => a.same(b),
                        _ => false,
                    }
                }
            },
            (
                ConstValue::Pointer { root_scope: s1, root_name: n1, path: p1, is_mut: m1 },
                ConstValue::Pointer { root_scope: s2, root_name: n2, path: p2, is_mut: m2 },
            ) => *s1 == *s2 && *n1 == *n2 && *m1 == *m2 && p1.same(p2),
            (ConstValue::Void, ConstValue::Void) => true,
            (ConstValue::Undef, ConstValue::Undef) => true,
            _ => false,
        }
    }
}

impl Values {
    pub fn same(&self, other: &Values) -> (r: bool)
        ensures
            r == (*self == *other),
        decreases self,
    {
        match (self, other) {
            (Values::Nil, Values::Nil) => true,
            (Values::Cons(h1, t1), Values::Cons(h2, t2)) => h1.same(h2) && t1.same(t2),
            _ => false,
        }
    }
}

impl Fields {
    pub fn same(&self, other: &Fields) -> (r: bool)
        ensures
            r == (*self == *other),
        decreases self,
    {
        match (self, other) {
            (Fields::Nil, Fields::Nil) => true,
            (Fields::Cons(n1, h1, t1), Fields::Cons(n2, h2, t2)) => *n1 == *n2 && h1.same(h2)
                && t1.same(t2),
            _ => false,
        }
    }
}

impl Path {
    pub fn same(&self, other: &Path) -> (r: bool)
        ensures
            r == (*self == *other),
        decreases self,
    {
        match (self, other) {
            (Path::Nil, Path::Nil) => true,
            (Path::Cons(h1, t1), Path::Cons(h2, t2)) => *h1 == *h2 && t1.same(t2),
            _ => false,
        }
    }
}

/// Binary operators of constant expressions.
#[derive(Clone, Copy, Debug, PartialEq, Eq, Structural)]
pub enum ConstBinaryOp {
    Add,
    Subtract,
    Multiply,
    Divide,
    Modulo,
    ShiftLeft,
    ShiftRight,
    BitwiseAnd,
    BitwiseOr,
    BitwiseXor,
    LogicalAnd,
    LogicalOr,
    Equal,
    NotEqual,
    LessThan,
    LessOrEqual,
    GreaterThan,
    GreaterOrEqual,
}

/// The result of an integer operator; `lhs_unsigned` selects a logical right shift.
pub open spec fn int_binary_spec(l: i128, op: ConstBinaryOp, r: i128, lhs_unsigned: bool) -> Result<
    ConstValue,
    ConstArithmeticError,
> {
    match op {
        ConstBinaryOp::Add => Ok(ConstValue::Int(wrap(l + r) as i128)),
        ConstBinaryOp::Subtract => Ok(ConstValue::Int(wrap(l - r) as i128)),
        ConstBinaryOp::Multiply => Ok(ConstValue::Int(wrap(l * r) as i128)),
        ConstBinaryOp::Divide => if r == 0 {
            Err(ConstArithmeticError::DivisionByZero)
        } else if l == i128::MIN && r == -1 {
            Err(ConstArithmeticError::DivisionOverflow)
        } else {
            Ok(ConstValue::Int(trunc_div(l as int, r as int) as i128))
        },
        ConstBinaryOp::Modulo => if r == 0 {
            Err(ConstArithmeticError::ModuloByZero)
        } else if l == i128::MIN && r == -1 {
            Err(ConstArithmeticError::ModuloOverflow)
        } else {
            Ok(ConstValue::Int(trunc_rem(l as int, r as int) as i128))
        },
        ConstBinaryOp::ShiftLeft => match shift_spec(l as int, r as int, true, lhs_unsigned) {
            Ok(v) => Ok(ConstValue::Int(v as i128)),
            Err(e) => Err(e),
        },
        ConstBinaryOp::ShiftRight => match shift_spec(l as int, r as int, false, lhs_unsigned) {
            Ok(v) => Ok(ConstValue::Int(v as i128)),
            Err(e) => Err(e),
        },
        ConstBinaryOp::BitwiseAnd => Ok(ConstValue::Int(l & r)),
        ConstBinaryOp::BitwiseOr => Ok(ConstValue::Int(l | r)),
        ConstBinaryOp::BitwiseXor => Ok(ConstValue::Int(l ^ r)),
        ConstBinaryOp::Equal => Ok(ConstValue::Bool(l == r)),
        ConstBinaryOp::NotEqual => Ok(ConstValue::Bool(l != r)),
        ConstBinaryOp::LessThan => Ok(ConstValue::Bool(l < r)),
        ConstBinaryOp::LessOrEqual => Ok(ConstValue::Bool(l <= r)),
        ConstBinaryOp::GreaterThan => Ok(ConstValue::Bool(l > r)),
        ConstBinaryOp::GreaterOrEqual => Ok(ConstValue::Bool(l >= r)),
        _ => Err(ConstArithmeticError::UnsupportedIntegerOperator),
    }
}

/// The result of a binary operator on two constant values.
pub open spec fn binary_spec(
    left: ConstValue,
    op: ConstBinaryOp,
    right: ConstValue,
    lhs_unsigned: bool,
) -> Result<ConstValue, ConstArithmeticError> {
    match (left, right) {
        (ConstValue::Int(l), ConstValue::Int(r)) => int_binary_spec(l, op, r, lhs_unsigned),
        (ConstValue::Bool(l), ConstValue::Bool(r)) => match op {
            ConstBinaryOp::LogicalAnd => Ok(ConstValue::Bool(l && r)),
            ConstBinaryOp::LogicalOr => Ok(ConstValue::Bool(l || r)),
            ConstBinaryOp::Equal => Ok(ConstValue::Bool(l == r)),
            ConstBinaryOp::NotEqual => Ok(ConstValue::Bool(l != r)),
            _ => Err(ConstArithmeticError::UnsupportedBoolOperator),
        },
        (ConstValue::Enum { .. }, ConstValue::Enum { .. }) => match op {
            ConstBinaryOp::Equal => Ok(ConstValue::Bool(left == right)),
            ConstBinaryOp::NotEqual => Ok(ConstValue::Bool(left != right)),
            _ => Err(ConstArithmeticError::UnsupportedEnumOperator),
        },
        _ => Err(ConstArithmeticError::TypeMismatch),
    }
}

fn int_binary(l: i128, op: ConstBinaryOp, r: i128, lhs_unsigned: bool) -> (res: Result<
    ConstValue,
    ConstArithmeticError,
>)
    ensures
        res == int_binary_spec(l, op, r, lhs_unsigned),
{
    match op {
        ConstBinaryOp::Add => Ok(ConstValue::Int(int_add(l, r))),
        ConstBinaryOp::Subtract => Ok(ConstValue::Int(int_sub(l, r))),
        ConstBinaryOp::Multiply => Ok(ConstValue::Int(int_mul(l, r))),
        ConstBinaryOp::Divide => match eval_const_int_division(l, r) {
            Ok(v) => Ok(ConstValue::Int(v)),
            Err(e) => Err(e),
        },
        ConstBinaryOp::Modulo => match eval_const_int_modulo(l, r) {
            Ok(v) => Ok(ConstValue::Int(v)),
            Err(e) => Err(e),
        },
        ConstBinaryOp::ShiftLeft => match eval_const_int_shift(l, r, true, lhs_unsigned) {
            Ok(v) => Ok(ConstValue::Int(v)),
            Err(e) => Err(e),
        },
        ConstBinaryOp::ShiftRight => match eval_const_int_shift(l, r, false, lhs_unsigned) {
            Ok(v) => Ok(ConstValue::Int(v)),
            Err(e) => Err(e),
        },
        ConstBinaryOp::BitwiseAnd => Ok(ConstValue::Int(l & r)),
        ConstBinaryOp::BitwiseOr => Ok(ConstValue::Int(l | r)),
        ConstBinaryOp::BitwiseXor => Ok(ConstValue::Int(l ^ r)),
        ConstBinaryOp::Equal => Ok(ConstValue::Bool(l == r)),
        ConstBinaryOp::NotEqual => Ok(ConstValue::Bool(l != r)),
        ConstBinaryOp::LessThan => Ok(ConstValue::Bool(l < r)),
        ConstBinaryOp::LessOrEqual => Ok(ConstValue::Bool(l <= r)),
        ConstBinaryOp::GreaterThan => Ok(ConstValue::Bool(l > r)),
        ConstBinaryOp::GreaterOrEqual => Ok(ConstValue::Bool(l >= r)),
        _ => Err(ConstArithmeticError::UnsupportedIntegerOperator),
    }
}

/// Applies a binary operator to two evaluated operands.
pub fn eval_binary_values(left: ConstValue, op: ConstBinaryOp, right: ConstValue, lhs_unsigned: bool) -> (res: Result<
    ConstValue,
    ConstArithmeticError,
>)
    ensures
        res == binary_spec(left, op, right, lhs_unsigned),
{
    match (&left, &right) {
        (ConstValue::Int(l), ConstValue::Int(r)) => int_binary(*l, op, *r, lhs_unsigned),
        (ConstValue::Bool(l), ConstValue::Bool(r)) => match op {
            ConstBinaryOp::LogicalAnd => Ok(ConstValue::Bool(*l && *r)),
            ConstBinaryOp::LogicalOr => Ok(ConstValue::Bool(*l || *r)),
            ConstBinaryOp::Equal => Ok(ConstValue::Bool(*l == *r)),
            ConstBinaryOp::NotEqual => Ok(ConstValue::Bool(*l != *r)),
            _ => Err(ConstArithmeticError::UnsupportedBoolOperator),
        },
        (ConstValue::Enum { .. }, ConstValue::Enum { .. }) => match op {
            ConstBinaryOp::Equal => Ok(ConstValue::Bool(left.same(&right))),
            ConstBinaryOp::NotEqual => Ok(ConstValue::Bool(!left.same(&right))),
            _ => Err(ConstArithmeticError::UnsupportedEnumOperator),
        },
        _ => Err(ConstArithmeticError::TypeMismatch),
    }
}

} // verus!
