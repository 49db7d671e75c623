//! The type registry: every type the checker talks about is interned once and
//! named by its index. A type only refers to types interned before it, which
//! is what makes the recursive walks over types terminate.

use vstd::prelude::*;

verus! {

pub type TypeId = u32;

pub type SymbolId = u32;

pub type DefId = u32;

pub const TY_ERROR: TypeId = 0;
pub const TY_VOID: TypeId = 1;
pub const TY_NEVER: TypeId = 2;
pub const TY_BOOL: TypeId = 3;
pub const TY_I8: TypeId = 4;
pub const TY_I16: TypeId = 5;
pub const TY_I32: TypeId = 6;
pub const TY_I64: TypeId = 7;
pub const TY_I128: TypeId = 8;
pub const TY_ISIZE: TypeId = 9;
pub const TY_U8: TypeId = 10;
pub const TY_U16: TypeId = 11;
pub const TY_U32: TypeId = 12;
pub const TY_U64: TypeId = 13;
pub const TY_U128: TypeId = 14;
pub const TY_USIZE: TypeId = 15;
pub const TY_F32: TypeId = 16;
pub const TY_F64: TypeId = 17;

/// Number of types every registry starts with, at the indices above.
pub const NUM_BUILTIN_TYPES: u32 = 18;

#[derive(Clone, Copy, Debug, PartialEq, Eq, Structural)]
pub enum PrimitiveType {
    Void,
    Never,
    Bool,
    I8,
    I16,
    I32,
    I64,
    I128,
    ISize,
    U8,
    U16,
    U32,
    U64,
    U128,
    USize,
    F32,
    F64,
}

impl PrimitiveType {
    pub open spec fn is_signed_int(self) -> bool {
        self is I8 || self is I16 || self is I32 || self is I64 || self is I128 || self is ISize
    }

    pub open spec fn is_unsigned_int(self) -> bool {
        self is U8 || self is U16 || self is U32 || self is U64 || self is U128 || self is USize
    }

    pub open spec fn is_int(self) -> bool {
        self.is_signed_int() || self.is_unsigned_int()
    }

    pub open spec fn is_float(self) -> bool {
        self is F32 || self is F64
    }

    pub fn signed(&self) -> (r: bool)
        ensures
            r == self.is_signed_int(),
    {
        match self {
            PrimitiveType::I8 | PrimitiveType::I16 | PrimitiveType::I32 | PrimitiveType::I64
            | PrimitiveType::I128 | PrimitiveType::ISize => true,
            _ => false,
        }
    }

    pub fn unsigned(&self) -> (r: bool)
        ensures
            r == self.is_unsigned_int(),
    {
        match self {
            PrimitiveType::U8 | PrimitiveType::U16 | PrimitiveType::U32 | PrimitiveType::U64
            | PrimitiveType::U128 | PrimitiveType::USize => true,
            _ => false,
        }
    }
}

/// The primitive stored at a builtin index of every registry.
pub open spec fn builtin_primitive(i: int) -> PrimitiveType {
    if i == 1 {
        PrimitiveType::Void
    } else if i == 2 {
        PrimitiveType::Never
    } else if i == 3 {
        PrimitiveType::Bool
    } else if i == 4 {
        PrimitiveType::I8
    } else if i == 5 {
        PrimitiveType::I16
    } else if i == 6 {
        PrimitiveType::I32
    } else if i == 7 {
        PrimitiveType::I64
    } else if i == 8 {
        PrimitiveType::I128
    } else if i == 9 {
        PrimitiveType::ISize
    } else if i == 10 {
        PrimitiveType::U8
    } else if i == 11 {
        PrimitiveType::U16
    } else if i == 12 {
        PrimitiveType::U32
    } else if i == 13 {
        PrimitiveType::U64
    } else if i == 14 {
        PrimitiveType::U128
    } else if i == 15 {
        PrimitiveType::USize
    } else if i == 16 {
        PrimitiveType::F32
    } else {
        PrimitiveType::F64
    }
}

/// The structure of a type. Component types are named by their ids.
#[derive(Clone, Debug)]
pub enum TypeKind {
    Error,
    Primitive(PrimitiveType),
    Pointer { is_mut: bool, elem: TypeId },
    VolatilePtr { is_mut: bool, elem: TypeId },
    Slice { is_mut: bool, elem: TypeId },
    Array { is_mut: bool, elem: TypeId, len: u64 },
    ArrayInfer { is_mut: bool, elem: TypeId },
    Simd { elem: TypeId, lanes: u16 },
    Alias(SymbolId, TypeId),
    Param(SymbolId),
    TypeVar(u32),
    Module(DefId),
    Def(DefId, Vec<TypeId>),
    Enum(DefId, Vec<TypeId>),
    TraitObject(DefId, Vec<TypeId>),
    FnDef(DefId, Vec<TypeId>),
    Function { params: Vec<TypeId>, ret: TypeId, is_variadic: bool },
    ClosureInterface { params: Vec<TypeId>, ret: TypeId },
    AnonymousState { captures: Vec<TypeId>, params: Vec<TypeId>, ret: TypeId },
}

/// All ids in `ids` are below `b`.
pub open spec fn ids_below(ids: Seq<TypeId>, b: int) -> bool {
    forall|i: int| 0 <= i < ids.len() ==> #[trigger] ids[i] < b
}

/// Every type that `k` is built from has an id below `b`.
pub open spec fn children_below(k: TypeKind, b: int) -> bool {
    match k {
        TypeKind::Pointer { elem, .. } => elem < b,
        TypeKind::VolatilePtr { elem, .. } => elem < b,
        TypeKind::Slice { elem, .. } => elem < b,
        TypeKind::Array { elem, .. } => elem < b,
        TypeKind::ArrayInfer { elem, .. } => elem < b,
        TypeKind::Simd { elem, .. } => elem < b,
        TypeKind::Alias(_, target) => target < b,
        TypeKind::Def(_, args) => ids_below(args@, b),
        TypeKind::Enum(_, args) => ids_below(args@, b),
        TypeKind::TraitObject(_, args) => ids_below(args@, b),
        TypeKind::FnDef(_, args) => ids_below(args@, b),
        TypeKind::Function { params, ret, .. } => ids_below(params@, b) && ret < b,
        TypeKind::ClosureInterface { params, ret } => ids_below(params@, b) && ret < b,
        TypeKind::AnonymousState { captures, params, ret } => ids_below(captures@, b)
            && ids_below(params@, b) && ret < b,
        _ => true,
    }
}

/// Structural sameness of two kinds, lists compared by their elements.
pub open spec fn same_kind(a: TypeKind, b: TypeKind) -> bool {
    match (a, b) {
        (TypeKind::Def(d1, a1), TypeKind::Def(d2, a2)) => d1 == d2 && a1@ == a2@,
        (TypeKind::Enum(d1, a1), TypeKind::Enum(d2, a2)) => d1 == d2 && a1@ == a2@,
        (TypeKind::TraitObject(d1, a1), TypeKind::TraitObject(d2, a2)) => d1 == d2 && a1@
            == a2@,
        (TypeKind::FnDef(d1, a1), TypeKind::FnDef(d2, a2)) => d1 == d2 && a1@ == a2@,
        (
            TypeKind::Function { params: p1, ret: r1, is_variadic: v1 },
            TypeKind::Function { params: p2, ret: r2, is_variadic: v2 },
        ) => p1@ == p2@ && r1 == r2 && v1 == v2,
        (
            TypeKind::ClosureInterface { params: p1, ret: r1 },
            TypeKind::ClosureInterface { params: p2, ret: r2 },
        ) => p1@ == p2@ && r1 == r2,
        (
            TypeKind::AnonymousState { captures: c1, params: p1, ret: r1 },
            TypeKind::AnonymousState { captures: c2, params: p2, ret: r2 },
        ) => c1@ == c2@ && p1@ == p2@ && r1 == r2,
        (TypeKind::Def(..), _) | (TypeKind::Enum(..), _) | (TypeKind::TraitObject(..), _) | (
            TypeKind::FnDef(..),
            _,
        ) | (TypeKind::Function { .. }, _) | (TypeKind::ClosureInterface { .. }, _) | (
            TypeKind::AnonymousState { .. },
            _,
        ) => false,
        _ => a == b,
    }
}

pub fn ids_eq(a: &Vec<TypeId>, b: &Vec<TypeId>) -> (r: bool)
    ensures
        r == (a@ == b@),
{
    if a.len() != b.len() {
        return false;
    }
    let mut i: usize = 0;
    while i < a.len()
        invariant
            a@.len() == b@.len(),
            i <= a@.len(),
            forall|j: int| 0 <= j < i ==> a@[j] == b@[j],
        decreases a@.len() - i,
    {
        if a[i] != b[i] {
            return false;
        }
        i = i + 1;
    }
    assert(a@ =~= b@);
    true
}

/// Decides `same_kind`.
pub fn kind_eq(a: &TypeKind, b: &TypeKind) -> (r: bool)
    ensures
        r == same_kind(*a, *b),
{
    match (a, b) {
        (TypeKind::Error, TypeKind::Error) => true,
        (TypeKind::Primitive(p), TypeKind::Primitive(q)) => *p == *q,
        (
            TypeKind::Pointer { is_mut: m1, elem: e1 },
            TypeKind::Pointer { is_mut: m2, elem: e2 },
        ) => *m1 == *m2 && *e1 == *e2,
        (
            TypeKind::VolatilePtr { is_mut: m1, elem: e1 },
            TypeKind::VolatilePtr { is_mut: m2, elem: e2 },
        ) => *m1 == *m2 && *e1 == *e2,
        (TypeKind::Slice { is_mut: m1, elem: e1 }, TypeKind::Slice { is_mut: m2, elem: e2 }) =>
            *m1 == *m2 && *e1 == *e2,
        (
            TypeKind::Array { is_mut: m1, elem: e1, len: l1 },
            TypeKind::Array { is_mut: m2, elem: e2, len: l2 },
        ) => *m1 == *m2 && *e1 == *e2 && *l1 == *l2,
        (
            TypeKind::ArrayInfer { is_mut: m1, elem: e1 },
            TypeKind::ArrayInfer { is_mut: m2, elem: e2 },
        ) => *m1 == *m2 && *e1 == *e2,
        (TypeKind::Simd { elem: e1, lanes: l1 }, TypeKind::Simd { elem: e2, lanes: l2 }) => *e1
            == *e2 && *l1 == *l2,
        (TypeKind::Alias(s1, t1), TypeKind::Alias(s2, t2)) => *s1 == *s2 && *t1 == *t2,
        (TypeKind::Param(s1), TypeKind::Param(s2)) => *s1 == *s2,
        (TypeKind::TypeVar(v1), TypeKind::TypeVar(v2)) => *v1 == *v2,
        (TypeKind::Module(d1), TypeKind::Module(d2)) => *d1 == *d2,
        (TypeKind::Def(d1, a1), TypeKind::Def(d2, a2)) => *d1 == *d2 && ids_eq(a1, a2),
        (TypeKind::Enum(d1, a1), TypeKind::Enum(d2, a2)) => *d1 == *d2 && ids_eq(a1, a2),
        (TypeKind::TraitObject(d1, a1), TypeKind::TraitObject(d2, a2)) => *d1 == *d2 && ids_eq(
            a1,
            a2,
        ),
        (TypeKind::FnDef(d1, a1), TypeKind::FnDef(d2, a2)) => *d1 == *d2 && ids_eq(a1, a2),
        (
            TypeKind::Function { params: p1, ret: r1, is_variadic: v1 },
            TypeKind::Function { params: p2, ret: r2, is_variadic: v2 },
        ) => *r1 == *r2 && *v1 == *v2 && ids_eq(p1, p2),
        (
            TypeKind::ClosureInterface { params: p1, ret: r1 },
            TypeKind::ClosureInterface { params: p2, ret: r2 },
        ) => *r1 == *r2 && ids_eq(p1, p2),
        (
            TypeKind::AnonymousState { captures: c1, params: p1, ret: r1 },
            TypeKind::AnonymousState { captures: c2, params: p2, ret: r2 },
        ) => *r1 == *r2 && ids_eq(c1, c2) && ids_eq(p1, p2),
        _ => false,
    }
}

pub struct TypeRegistry {
    kinds: Vec<TypeKind>,
    pointer_bytes: u64,
}

impl TypeRegistry {
    pub closed spec fn kinds(self) -> Seq<TypeKind> {
        self.kinds@
    }

    /// Size of a pointer on the target, in bytes.
    pub closed spec fn ptr_bytes(self) -> u64 {
        self.pointer_bytes
    }

    pub open spec fn len(self) -> nat {
        self.kinds().len()
    }

    pub open spec fn valid(self, t: TypeId) -> bool {
        t < self.len()
    }

    pub open spec fn kind(self, t: TypeId) -> TypeKind {
        self.kinds()[t as int]
    }

    /// The registry starts with the builtin primitives, every type is built from
    /// types interned before it, and the target's pointers are 4 or 8 bytes.
    pub open spec fn wf(self) -> bool {
        &&& self.len() >= NUM_BUILTIN_TYPES
        &&& self.len() <= u32::MAX
        &&& self.kinds()[0] is Error
        &&& forall|i: int|
            1 <= i < NUM_BUILTIN_TYPES ==> #[trigger] self.kinds()[i] == TypeKind::Primitive(
                builtin_primitive(i),
            )
        &&& forall|i: int| 0 <= i < self.len() ==> children_below(#[trigger] self.kinds()[i], i)
        &&& (self.ptr_bytes() == 4 || self.ptr_bytes() == 8)
    }

    /// `new` is a registry holding the builtins and nothing more.
    pub fn new(pointer_bytes: u64) -> (r: Self)
        requires
            pointer_bytes == 4 || pointer_bytes == 8,
        ensures
            r.wf(),
            r.len() == NUM_BUILTIN_TYPES,
            r.ptr_bytes() == pointer_bytes,
    {
        let mut kinds: Vec<TypeKind> = Vec::new();
        kinds.push(TypeKind::Error);
        kinds.push(TypeKind::Primitive(PrimitiveType::Void));
        kinds.push(TypeKind::Primitive(PrimitiveType::Never));
        kinds.push(TypeKind::Primitive(PrimitiveType::Bool));
        kinds.push(TypeKind::Primitive(PrimitiveType::I8));
        kinds.push(TypeKind::Primitive(PrimitiveType::I16));
        kinds.push(TypeKind::Primitive(PrimitiveType::I32));
        kinds.push(TypeKind::Primitive(PrimitiveType::I64));
        kinds.push(TypeKind::Primitive(PrimitiveType::I128));
        kinds.push(TypeKind::Primitive(PrimitiveType::ISize));
        kinds.push(TypeKind::Primitive(PrimitiveType::U8));
        kinds.push(TypeKind::Primitive(PrimitiveType::U16));
        kinds.push(TypeKind::Primitive(PrimitiveType::U32));
        kinds.push(TypeKind::Primitive(PrimitiveType::U64));
        kinds.push(TypeKind::Primitive(PrimitiveType::U128));
        kinds.push(TypeKind::Primitive(PrimitiveType::USize));
        kinds.push(TypeKind::Primitive(PrimitiveType::F32));
        kinds.push(TypeKind::Primitive(PrimitiveType::F64));
        let r = TypeRegistry { kinds, pointer_bytes };
        assert forall|i: int| 1 <= i < NUM_BUILTIN_TYPES implies #[trigger] r.kinds()[i]
            == TypeKind::Primitive(builtin_primitive(i)) by {}
        r
    }

    pub fn num_types(&self) -> (r: usize)
        ensures
            r == self.len(),
    {
        self.kinds.len()
    }

    pub fn pointer_size(&self) -> (r: u64)
        ensures
            r == self.ptr_bytes(),
    {
        self.pointer_bytes
    }

    pub fn get(&self, t: TypeId) -> (r: &TypeKind)
        requires
            self.valid(t),
        ensures
            *r == self.kind(t),
    {
        &self.kinds[t as usize]
    }

    /// `norm(t)` follows alias links to the type they name.
    pub open spec fn norm(self, t: TypeId) -> TypeId
        decreases t,
    {
        if self.valid(t) {
            match self.kind(t) {
                TypeKind::Alias(_, target) => if target < t {
                    self.norm(target)
                } else {
                    t
                },
                _ => t,
            }
        } else {
            t
        }
    }

    pub proof fn lemma_norm(self, t: TypeId)
        requires
            self.wf(),
            self.valid(t),
        ensures
            self.norm(t) <= t,
            self.valid(self.norm(t)),
            !(self.kind(self.norm(t)) is Alias),
        decreases t,
    {
        if let TypeKind::Alias(_, target) = self.kind(t) {
            assert(children_below(self.kinds()[t as int], t as int));
            self.lemma_norm(target);
        }
    }

    pub fn normalize(&self, t: TypeId) -> (r: TypeId)
        requires
            self.wf(),
            self.valid(t),
        ensures
            r == self.norm(t),
            self.valid(r),
            r <= t,
            !(self.kind(r) is Alias),
    {
        proof {
            self.lemma_norm(t);
        }
        let mut cur = t;
        loop
            invariant
                self.wf(),
                self.valid(cur),
                cur <= t,
                self.norm(cur) == self.norm(t),
            decreases cur,
        {
            match &self.kinds[cur as usize] {
                TypeKind::Alias(_, target) => {
                    assert(children_below(self.kinds()[cur as int], cur as int));
                    cur = *target;
                },
                _ => {
                    return cur;
                },
            }
        }
    }

    /// Interns `k`: the id of a type of that structure, added if none exists.
    pub fn intern(&mut self, k: TypeKind) -> (r: TypeId)
        requires
            old(self).wf(),
            children_below(k, old(self).len() as int),
            old(self).len() < u32::MAX,
        ensures
            final(self).wf(),
            final(self).valid(r),
            same_kind(final(self).kind(r), k),
            final(self).ptr_bytes() == old(self).ptr_bytes(),
            old(self).kinds().is_prefix_of(final(self).kinds()),
            final(self).len() <= old(self).len() + 1,
            (exists|i: int| 0 <= i < old(self).len() && same_kind(old(self).kinds()[i], k))
                ==> final(self).kinds() == old(self).kinds(),
            forall|j: int| 0 <= j < r ==> !same_kind(#[trigger] final(self).kinds()[j], k),
    {
        let mut i: usize = 0;
        while i < self.kinds.len()
            invariant
                self.wf(),
                self.kinds@ == old(self).kinds@,
                self.pointer_bytes == old(self).pointer_bytes,
                self.len() <= u32::MAX,
                i <= self.kinds@.len(),
                forall|j: int| 0 <= j < i ==> !same_kind(self.kinds@[j], k),
            decreases self.kinds@.len() - i,
        {
            if kind_eq(&self.kinds[i], &k) {
                return i as u32;
            }
            i = i + 1;
        }
        let ghost old_kinds = self.kinds@;
        let n = self.kinds.len();
        let ghost kk = k;
        self.kinds.push(k);
        assert(old_kinds.is_prefix_of(self.kinds@));
        assert forall|i: int| 0 <= i < self.len() implies children_below(
            #[trigger] self.kinds()[i],
            i,
        ) by {
            if i < n {
                assert(self.kinds()[i] == old_kinds[i]);
            }
        }
        proof {
            lemma_same_kind_refl(kk);
        }
        n as u32
    }

    pub open spec fn is_int_ty(self, t: TypeId) -> bool {
        self.kind(t) matches TypeKind::Primitive(p) && p.is_int()
    }

    pub open spec fn is_float_ty(self, t: TypeId) -> bool {
        self.kind(t) matches TypeKind::Primitive(p) && p.is_float()
    }

    pub fn is_integer(&self, t: TypeId) -> (r: bool)
        requires
            self.valid(t),
        ensures
            r == self.is_int_ty(t),
    {
        match &self.kinds[t as usize] {
            TypeKind::Primitive(p) => p.signed() || p.unsigned(),
            _ => false,
        }
    }

    pub fn is_float(&self, t: TypeId) -> (r: bool)
        requires
            self.valid(t),
        ensures
            r == self.is_float_ty(t),
    {
        match &self.kinds[t as usize] {
            TypeKind::Primitive(PrimitiveType::F32) | TypeKind::Primitive(PrimitiveType::F64) => true,
            _ => false,
        }
    }

    pub fn is_void(&self, t: TypeId) -> (r: bool)
        requires
            self.valid(t),
        ensures
            r == (self.kind(t) == TypeKind::Primitive(PrimitiveType::Void)),
    {
        match &self.kinds[t as usize] {
            TypeKind::Primitive(PrimitiveType::Void) => true,
            _ => false,
        }
    }

    /// Lane type and lane count of a SIMD vector type.
    pub open spec fn simd_of(self, t: TypeId) -> Option<(TypeId, u16)> {
        match self.kind(t) {
            TypeKind::Simd { elem, lanes } => Some((elem, lanes)),
            _ => None,
        }
    }

    pub fn simd_info(&self, t: TypeId) -> (r: Option<(TypeId, u16)>)
        requires
            self.valid(t),
        ensures
            r == self.simd_of(t),
    {
        match &self.kinds[t as usize] {
            TypeKind::Simd { elem, lanes } => Some((*elem, *lanes)),
            _ => None,
        }
    }

    pub fn is_simd(&self, t: TypeId) -> (r: bool)
        requires
            self.valid(t),
        ensures
            r == self.simd_of(t).is_some(),
    {
        self.simd_info(t).is_some()
    }

    /// A SIMD mask is a vector of `bool` lanes.
    pub fn is_simd_mask(&self, t: TypeId) -> (r: bool)
        requires
            self.valid(t),
        ensures
            r == (self.simd_of(t) matches Some((e, _)) && e == TY_BOOL),
    {
        match self.simd_info(t) {
            Some((e, _)) => e == TY_BOOL,
            None => false,
        }
    }
}


/// Size in bytes of a primitive; `None` for `void` and `never`.
pub open spec fn primitive_size(p: PrimitiveType, ptr: u64) -> Option<u64> {
    match p {
        PrimitiveType::Void | PrimitiveType::Never => None,
        PrimitiveType::Bool | PrimitiveType::I8 | PrimitiveType::U8 => Some(1),
        PrimitiveType::I16 | PrimitiveType::U16 => Some(2),
        PrimitiveType::I32 | PrimitiveType::U32 | PrimitiveType::F32 => Some(4),
        PrimitiveType::I64 | PrimitiveType::U64 | PrimitiveType::F64 => Some(8),
        PrimitiveType::I128 | PrimitiveType::U128 => Some(16),
        PrimitiveType::ISize | PrimitiveType::USize => Some(ptr),
    }
}

impl TypeRegistry {
    /// A pointer to `elem` carries metadata (slices, trait objects, closures).
    pub open spec fn is_fat_target(self, elem: TypeId) -> bool {
        self.valid(elem) && (self.kind(elem) is Slice || self.kind(elem) is TraitObject
            || self.kind(elem) is ClosureInterface)
    }

    /// The layout size of `t` in bytes, where the layout is known.
    pub open spec fn size_of(self, t: TypeId) -> Option<u64>
        decreases t,
    {
        if !self.valid(t) {
            None
        } else {
            match self.kind(t) {
                TypeKind::Primitive(p) => primitive_size(p, self.ptr_bytes()),
                TypeKind::Pointer { elem, .. } | TypeKind::VolatilePtr { elem, .. } => if self.is_fat_target(elem) {
                    Some((2 * self.ptr_bytes()) as u64)
                } else {
                    Some(self.ptr_bytes())
                },
                TypeKind::Function { .. } | TypeKind::FnDef(..) => Some(self.ptr_bytes()),
                TypeKind::Alias(_, target) => if target < t {
                    self.size_of(target)
                } else {
                    None
                },
                TypeKind::Simd { elem, lanes } => if elem < t {
                    match self.size_of(elem) {
                        Some(s) => if s * lanes <= u64::MAX {
                            Some((s * lanes) as u64)
                        } else {
                            None
                        },
                        None => None,
                    }
                } else {
                    None
                },
                TypeKind::Array { elem, len, .. } => if elem < t {
                    match self.size_of(elem) {
                        Some(s) => if s * len <= u64::MAX {
                            Some((s * len) as u64)
                        } else {
                            None
                        },
                        None => None,
                    }
                } else {
                    None
                },
                _ => None,
            }
        }
    }

    /// `size_of`, computed.
    pub fn layout_size(&self, t: TypeId) -> (r: Option<u64>)
        requires
            self.wf(),
            self.valid(t),
        ensures
            r == self.size_of(t),
        decreases t,
    {
        match &self.kinds[t as usize] {
            TypeKind::Primitive(p) => match p {
                PrimitiveType::Void | PrimitiveType::Never => None,
                PrimitiveType::Bool | PrimitiveType::I8 | PrimitiveType::U8 => Some(1),
                PrimitiveType::I16 | PrimitiveType::U16 => Some(2),
                PrimitiveType::I32 | PrimitiveType::U32 | PrimitiveType::F32 => Some(4),
                PrimitiveType::I64 | PrimitiveType::U64 | PrimitiveType::F64 => Some(8),
                PrimitiveType::I128 | PrimitiveType::U128 => Some(16),
                PrimitiveType::ISize | PrimitiveType::USize => Some(self.pointer_bytes),
            },
            TypeKind::Pointer { elem, .. } | TypeKind::VolatilePtr { elem, .. } => {
                assert(children_below(self.kinds()[t as int], t as int));
                let fat = match &self.kinds[*elem as usize] {
                    TypeKind::Slice { .. } | TypeKind::TraitObject(..) | TypeKind::ClosureInterface { .. } => true,
                    _ => false,
                };
                if fat {
                    Some(2 * self.pointer_bytes)
                } else {
                    Some(self.pointer_bytes)
                }
            },
            TypeKind::Function { .. } | TypeKind::FnDef(..) => Some(self.pointer_bytes),
            TypeKind::Alias(_, target) => {
                assert(children_below(self.kinds()[t as int], t as int));
                self.layout_size(*target)
            },
            TypeKind::Simd { elem, lanes } => {
                assert(children_below(self.kinds()[t as int], t as int));
                match self.layout_size(*elem) {
                    Some(s) => s.checked_mul(*lanes as u64),
                    None => None,
                }
            },
            TypeKind::Array { elem, len, .. } => {
                assert(children_below(self.kinds()[t as int], t as int));
                match self.layout_size(*elem) {
                    Some(s) => s.checked_mul(*len),
                    None => None,
                }
            },
            _ => None,
        }
    }
}

pub proof fn lemma_same_kind_refl(k: TypeKind)
    ensures
        same_kind(k, k),
{
}

} // verus!
