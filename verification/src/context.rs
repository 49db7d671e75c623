//! The semantic context shared by the checker and the constant evaluator:
//! types, definitions, scopes and the diagnostics emitted so far.

use vstd::prelude::*;
use crate::types::{TypeId, SymbolId, DefId, TypeRegistry};
use crate::ast::{Expr, Span};
use crate::intrinsic::{SimdDiag, SimdIntrinsic, AtomicDiag, AtomicIntrinsic, OrderRole};

verus! {

pub type ScopeId = u32;

#[derive(Clone, Copy, Debug, PartialEq, Eq, Structural)]
pub enum SymbolKind {
    Var,
    Const,
    ConstParam,
    Static,
    Function,
    Struct,
    Union,
    Enum,
    Trait,
    TypeAlias,
    TypeParam,
    Module,
    Other,
}

#[derive(Clone, Copy, Debug, PartialEq, Eq, Structural)]
pub struct SymbolInfo {
    pub kind: SymbolKind,
    pub def_id: Option<DefId>,
    pub type_id: TypeId,
    pub is_mut: bool,
}

#[derive(Debug)]
pub struct Scope {
    pub parent: Option<ScopeId>,
    /// The module this scope belongs to, if any.
    pub module: Option<DefId>,
    pub symbols: Vec<(SymbolId, SymbolInfo)>,
}

/// The compiler intrinsics the checker and the evaluator know by name.
#[derive(Clone, Copy, Debug, PartialEq, Eq, Structural)]
pub enum Intrinsic {
    Loc,
    SizeOf,
    AlignOf,
    PopCount,
    Clz,
    Ctz,
    IntCast,
    Bswap,
    Memcpy,
    Memmove,
    Memset,
    Atomic(AtomicIntrinsic),
    Simd(SimdIntrinsic),
    Other,
}

#[derive(Debug)]
pub struct Param {
    pub name: SymbolId,
    pub is_mut: bool,
}

#[derive(Debug)]
pub struct FunctionDef {
    pub name: SymbolId,
    pub parent: Option<DefId>,
    pub is_const: bool,
    pub is_extern: bool,
    pub intrinsic: Option<Intrinsic>,
    pub generics: Vec<SymbolId>,
    pub params: Vec<Param>,
    pub body: Option<Expr>,
    /// The resolved `Function` type of the signature.
    pub sig: Option<TypeId>,
    /// The `where` clauses: a type and the traits it must implement.
    pub where_clauses: Vec<(TypeId, Vec<TypeId>)>,
}

#[derive(Debug)]
pub struct EnumVariant {
    pub name: SymbolId,
    pub value: Option<Expr>,
    pub payload: Option<TypeId>,
}

#[derive(Debug)]
pub enum Def {
    Module { scope_id: ScopeId, items: Vec<DefId> },
    Function(FunctionDef),
    Impl { parent_module: Option<DefId> },
    Global { value: Expr },
    Enum { is_extern: bool, generics: Vec<SymbolId>, variants: Vec<EnumVariant> },
    Trait { generics: Vec<SymbolId>, supertraits: Vec<TypeId> },
    Other,
}

/// What a diagnostic reports. Variants that depend on an intrinsic or a symbol
/// kind carry it.
#[derive(Clone, Copy, Debug, PartialEq, Eq, Structural)]
pub enum DiagCode {
    ConstDepthExceeded,
    NegativeForUsize,
    TooLargeForUsize,
    ExpectedIntegerConstant,
    DivisionByZero,
    ModuloByZero,
    DivisionOverflow,
    ModuloOverflow,
    NegativeShift,
    ShiftTooLarge,
    UnsupportedIntegerOperator,
    UnsupportedBoolOperator,
    UnsupportedEnumOperator,
    BinaryTypeMismatch,
    NegativeToUnsigned,
    LiteralOutOfRange,
    UnaryMinusOnUnsigned,
    InvalidUnaryOperator,
    ArrayLenNotConcrete,
    SliceLenUnknown,
    OnlyIntegerCasts,
    ConstParamNotStandalone,
    NotCompileTimeConstant(SymbolKind),
    UndeclaredIdentifier,
    CallsNotAllowed,
    OnlyConstFnCallable,
    ExternConstFnUnsupported,
    GenericArgsUnresolved,
    ArgCountMismatch,
    ConstFnWithoutBody,
    IntrinsicNeedsGenericArgs,
    MemoryIntrinsicNotConst,
    IntrinsicNotConst,
    BitIntrinsicTargetType,
    VariantLiteralUnresolved,
    PayloadVariantAsInteger,
    VariantNotFound,
    VariantNeedsPayload,
    VariantTakesNoPayload,
    EnumInitOneVariant,
    InvalidEnumInit,
    EnumCtorExpectsName,
    IrrefutableLetElse,
    RefutableLetNeedsElse,
    LetElseArmsNoMatch,
    MatchNoArm,
    TooManyGenericArgs,
    GenericArgCountMismatch,
    MethodWithoutReceiver,
    CannotInferGenerics,
    BoundNotSatisfied,
    NotCallable,
    ArgCountMismatchAtLeast,
    ReceiverNotPointer,
    VarargIntTooSmall,
    VarargFloatTooSmall,
    CastPointerToSlice,
    CastImmutableToMutClosure,
    CastToClosure,
    CastImmutableToMutTraitObject,
    CastToTraitObject,
    CastIntToFatPointer,
    InvalidCast,
    SelfUnavailable,
    EnumDefExpected,
    MutIndexUnsupported,
    IndexNotInteger,
    SimdLaneNotConst,
    SimdLaneOutOfBounds,
    NotIndexable,
    SliceBoundNotInteger,
    MutSliceOfImmutable,
    NotSliceable,
    NotGenericTarget,
    MissingScope,
    WrongGenericArgCount,
    MemberIntrinsicArgs,
    LenOfInferredArray,
    NotGenericDef,
    IfConditionNotBool,
    WhileConditionNotBool,
    LoopLimitExceeded,
    ReturnOutsideFn,
    BreakOutsideLoop,
    ContinueOutsideLoop,
    DiscardOnlyAssign,
    AssignNotLocal,
    AssignImmutable,
    UnsupportedCompoundAssign,
    CompoundTypeMismatch,
    ExpectedModuleDef,
    ConstNotFoundInModule,
    FieldNotFound,
    FieldAccessNonStruct,
    IndexOutOfBounds,
    IndexNonArray,
    GenericInstantiationAsValue,
    TypeAsValue,
    UnsupportedConstruct,
    InvalidConstExpr,
    RefNotLocal,
    RefUnsupported,
    MutThroughImmutablePointer,
    ExpectedLocalPointer,
    PointerTargetGone,
    PatternDepthExceeded,
    LayoutUnknown,
    Simd(SimdDiag, SimdIntrinsic),
    Atomic(AtomicDiag, AtomicIntrinsic),
    AtomicOrder(AtomicDiag, OrderRole),
    MismatchedTypes,
    ImmutableArrayToMutSlice,
    ImmutableBorrowAsMutTraitObject,
    ImmutableClosureAsMutClosure,
    FnDefNotFunction,
    FnDefWithoutSignature,
    FnDefSignatureNotFunction,
    AsmArgCount,
    AsmArgNotStruct,
    AsmTemplateNotString,
    AsmOutputNotMutPointer,
    AsmRegsNotStruct,
    AsmClobberNotString,
    AsmClobbersNotArray,
    AsmVolatileNotConst,
    AsmUnknownField,
    AsmMissingTemplate,
}

#[derive(Clone, Copy, Debug, PartialEq, Eq, Structural)]
pub struct Diagnostic {
    pub code: DiagCode,
    pub span: Span,
}

/// `d` is a module listing `def` among its items.
pub open spec fn module_lists(d: Def, def: DefId) -> bool {
    match d {
        Def::Module { items, .. } => items@.contains(def),
        _ => false,
    }
}

/// The parent of scope `i` comes before it.
pub open spec fn parent_before(s: Scope, i: int) -> bool {
    match s.parent {
        Some(p) => p < i,
        None => true,
    }
}

pub struct SemaContext {
    pub types: TypeRegistry,
    pub defs: Vec<Def>,
    pub scopes: Vec<Scope>,
    pub current_scope: Option<ScopeId>,
    pub diags: Vec<Diagnostic>,
    /// Widest atomic the target supports without a lock, in bits.
    pub max_atomic_bits: u64,
}

/// The symbol `name` declared in scope `scope` of `scopes` itself.
pub open spec fn scope_declares(scopes: Seq<Scope>, scope: ScopeId, name: SymbolId) -> Option<SymbolInfo> {
    if scope < scopes.len() {
        let syms = scopes[scope as int].symbols@;
        if exists|i: int| 0 <= i < syms.len() && syms[i].0 == name {
            let i = choose|i: int|
                0 <= i < syms.len() && syms[i].0 == name && forall|j: int|
                    0 <= j < i ==> syms[j].0 != name;
            Some(syms[i].1)
        } else {
            None
        }
    } else {
        None
    }
}

/// The symbol `name` seen from scope `scope`: the nearest declaration walking
/// out through the parents.
pub open spec fn scope_resolves(scopes: Seq<Scope>, scope: ScopeId, name: SymbolId) -> Option<SymbolInfo>
    decreases scope,
{
    match scope_declares(scopes, scope, name) {
        Some(info) => Some(info),
        None => if scope < scopes.len() {
            match scopes[scope as int].parent {
                Some(p) => if p < scope {
                    scope_resolves(scopes, p, name)
                } else {
                    None
                },
                None => None,
            }
        } else {
            None
        },
    }
}

impl SemaContext {
    /// The registry is well formed and every scope's parent comes before it.
    pub open spec fn wf(self) -> bool {
        &&& self.types.wf()
        &&& forall|i: int|
            0 <= i < self.scopes@.len() ==> parent_before(#[trigger] self.scopes@[i], i)
    }

    pub fn emit(&mut self, code: DiagCode, span: Span)
        ensures
            final(self).diags@ == old(self).diags@.push(Diagnostic { code, span }),
            final(self).types == old(self).types,
            final(self).defs == old(self).defs,
            final(self).scopes == old(self).scopes,
            final(self).current_scope == old(self).current_scope,
            final(self).max_atomic_bits == old(self).max_atomic_bits,
    {
        self.diags.push(Diagnostic { code, span });
    }

    /// The symbol `name` declared in `scope` itself.
    pub open spec fn declared_in(self, scope: ScopeId, name: SymbolId) -> Option<SymbolInfo> {
        scope_declares(self.scopes@, scope, name)
    }

    /// The symbol `name` seen from `scope`: the nearest declaration walking out
    /// through the parents.
    pub open spec fn resolves(self, scope: ScopeId, name: SymbolId) -> Option<SymbolInfo> {
        scope_resolves(self.scopes@, scope, name)
    }

    pub fn lookup_in(&self, scope: ScopeId, name: SymbolId) -> (r: Option<SymbolInfo>)
        ensures
            r == self.declared_in(scope, name),
    {
        if scope as usize >= self.scopes.len() {
            return None;
        }
        let syms = &self.scopes[scope as usize].symbols;
        let mut i: usize = 0;
        while i < syms.len()
            invariant
                i <= syms@.len(),
                syms@ == self.scopes@[scope as int].symbols@,
                scope < self.scopes@.len(),
                forall|j: int| 0 <= j < i ==> syms@[j].0 != name,
            decreases syms@.len() - i,
        {
            if syms[i].0 == name {
                let ghost k = choose|k: int|
                    0 <= k < syms@.len() && syms@[k].0 == name && forall|j: int|
                        0 <= j < k ==> syms@[j].0 != name;
                assert(k == i) by {
                    if k < i {
                    } else if k > i {
                        assert(syms@[i as int].0 == name);
                    }
                }
                return Some(syms[i].1);
            }
            i = i + 1;
        }
        None
    }

    pub fn resolve_from(&self, scope: ScopeId, name: SymbolId) -> (r: Option<SymbolInfo>)
        requires
            self.wf(),
        ensures
            r == self.resolves(scope, name),
    {
        let mut cur = scope;
        loop
            invariant
                self.wf(),
                self.resolves(cur, name) == self.resolves(scope, name),
            decreases cur,
        {
            match self.lookup_in(cur, name) {
                Some(info) => {
                    return Some(info);
                },
                None => {
                    if cur as usize >= self.scopes.len() {
                        return None;
                    }
                    match self.scopes[cur as usize].parent {
                        Some(p) => {
                            if p >= cur {
                                return None;
                            }
                            cur = p;
                        },
                        None => {
                            return None;
                        },
                    }
                },
            }
        }
    }

    /// The symbol `name` seen from the current scope.
    pub open spec fn resolves_here(self, name: SymbolId) -> Option<SymbolInfo> {
        match self.current_scope {
            Some(s) => self.resolves(s, name),
            None => None,
        }
    }

    pub fn resolve(&self, name: SymbolId) -> (r: Option<SymbolInfo>)
        requires
            self.wf(),
        ensures
            r == self.resolves_here(name),
    {
        match self.current_scope {
            Some(s) => self.resolve_from(s, name),
            None => None,
        }
    }

    /// The module that defines `def`: the scope of the module whose items list it.
    pub open spec fn global_owner(self, def: DefId) -> Option<ScopeId> {
        if exists|i: int|
            0 <= i < self.defs@.len() && module_lists(#[trigger] self.defs@[i], def) {
            let i = choose|i: int|
                0 <= i < self.defs@.len() && module_lists(#[trigger] self.defs@[i], def) && forall|j: int|
                    0 <= j < i ==> !module_lists(self.defs@[j], def);
            match self.defs@[i] {
                Def::Module { scope_id, .. } => Some(scope_id),
                _ => None,
            }
        } else {
            None
        }
    }

    /// The owner scope found walking out from a function's parent through
    /// `impl` blocks, taking at most `fuel` steps.
    pub open spec fn parent_module_scope(self, parent: Option<DefId>, fuel: nat) -> Option<
        ScopeId,
    >
        decreases fuel,
    {
        match parent {
            None => None,
            Some(p) => if p >= self.defs@.len() || fuel == 0 {
                None
            } else {
                match self.defs@[p as int] {
                    Def::Module { scope_id, .. } => Some(scope_id),
                    Def::Impl { parent_module } => self.parent_module_scope(
                        parent_module,
                        (fuel - 1) as nat,
                    ),
                    _ => None,
                }
            },
        }
    }

    /// The scope a definition's body is resolved in.
    pub open spec fn def_owner(self, def: DefId) -> Option<ScopeId> {
        if def >= self.defs@.len() {
            None
        } else {
            match self.defs@[def as int] {
                Def::Function(f) => self.parent_module_scope(f.parent, self.defs@.len()),
                Def::Global { .. } => self.global_owner(def),
                _ => None,
            }
        }
    }

    fn contains_def(items: &Vec<DefId>, def: DefId) -> (r: bool)
        ensures
            r == items@.contains(def),
    {
        let mut i: usize = 0;
        while i < items.len()
            invariant
                i <= items@.len(),
                forall|j: int| 0 <= j < i ==> items@[j] != def,
            decreases items@.len() - i,
        {
            if items[i] == def {
                return true;
            }
            i = i + 1;
        }
        false
    }

    pub fn global_owner_scope(&self, def: DefId) -> (r: Option<ScopeId>)
        ensures
            r == self.global_owner(def),
    {
        let mut i: usize = 0;
        while i < self.defs.len()
            invariant
                i <= self.defs@.len(),
                forall|j: int|
                    0 <= j < i ==> !module_lists(#[trigger] self.defs@[j], def),
            decreases self.defs@.len() - i,
        {
            match &self.defs[i] {
                Def::Module { scope_id, items } => {
                    if Self::contains_def(items, def) {
                        let ghost k = choose|k: int|
                            0 <= k < self.defs@.len() && module_lists(#[trigger] self.defs@[k], def) && forall|j: int|
                                0 <= j < k ==> !module_lists(self.defs@[j], def);
                        assert(k == i) by {
                            if k > i {
                                assert(module_lists(self.defs@[i as int], def));
                            }
                        }
                        return Some(*scope_id);
                    }
                },
                _ => {},
            }
            i = i + 1;
        }
        None
    }

    pub fn def_owner_scope(&self, def: DefId) -> (r: Option<ScopeId>)
        ensures
            r == self.def_owner(def),
    {
        if def as usize >= self.defs.len() {
            return None;
        }
        match &self.defs[def as usize] {
            Def::Function(f) => {
                let mut parent = f.parent;
                let mut fuel: usize = self.defs.len();
                loop
                    invariant
                        fuel <= self.defs@.len(),
                        self.parent_module_scope(parent, fuel as nat) == self.def_owner(def),
                    decreases fuel,
                {
                    match parent {
                        None => {
                            return None;
                        },
                        Some(p) => {
                            if p as usize >= self.defs.len() || fuel == 0 {
                                return None;
                            }
                            match &self.defs[p as usize] {
                                Def::Module { scope_id, .. } => {
                                    return Some(*scope_id);
                                },
                                Def::Impl { parent_module } => {
                                    parent = *parent_module;
                                    fuel = fuel - 1;
                                },
                                _ => {
                                    return None;
                                },
                            }
                        },
                    }
                }
            },
            Def::Global { .. } => self.global_owner_scope(def),
            _ => None,
        }
    }
}

} // verus!
