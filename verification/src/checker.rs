//! The expression checker's state and its queries on types: inference
//! variables and their bindings, and the shapes of pointer-like types.

use vstd::prelude::*;
use crate::types::{
    TypeId, SymbolId, DefId, TypeKind, PrimitiveType, TypeRegistry, children_below, same_kind,
    TY_ERROR, TY_I8, TY_I16, TY_I32, TY_I64, TY_I128, TY_ISIZE,
};
use crate::context::{SemaContext, SymbolKind, ScopeId, Scope, Diagnostic, DiagCode};
use crate::ast::{Expr, Span};
use crate::value::ConstValue;
use crate::eval::ConstEvaluator;
use crate::eval_state::ConstEvalError;
use crate::eval_spec::{pure_sem, usize_of};
use crate::eval_spec::known_ty;

verus! {

/// Follows inference-variable bindings from `t`, at most `fuel` of them.
pub open spec fn tv_chain(types: TypeRegistry, tvs: Seq<Option<TypeId>>, t: TypeId, fuel: nat) -> TypeId
    decreases fuel,
{
    let n = types.norm(known_ty(types, t));
    match types.kind(n) {
        TypeKind::TypeVar(v) => if fuel > 0 && v < tvs.len() && tvs[v as int] is Some {
            tv_chain(types, tvs, tvs[v as int].unwrap(), (fuel - 1) as nat)
        } else {
            n
        },
        _ => n,
    }
}

pub proof fn lemma_tv_chain_valid(types: TypeRegistry, tvs: Seq<Option<TypeId>>, t: TypeId, fuel: nat)
    requires
        types.wf(),
    ensures
        types.valid(tv_chain(types, tvs, t, fuel)),
        !(types.kind(tv_chain(types, tvs, t, fuel)) is Alias),
    decreases fuel,
{
    types.lemma_norm(known_ty(types, t));
    let n = types.norm(known_ty(types, t));
    if let TypeKind::TypeVar(v) = types.kind(n) {
        if fuel > 0 && v < tvs.len() && tvs[v as int] is Some {
            lemma_tv_chain_valid(types, tvs, tvs[v as int].unwrap(), (fuel - 1) as nat);
        }
    }
}

/// The module a scope belongs to: its own, or that of the nearest enclosing
/// scope that has one.
pub open spec fn module_of(scopes: Seq<Scope>, s: ScopeId) -> Option<DefId>
    decreases s,
{
    if s >= scopes.len() {
        None
    } else {
        match scopes[s as int].module {
            Some(m) => Some(m),
            None => match scopes[s as int].parent {
                Some(p) => if p < s {
                    module_of(scopes, p)
                } else {
                    None
                },
                None => None,
            },
        }
    }
}

/// Symbol kinds that name types rather than values.
pub open spec fn is_type_namespace_kind(kind: SymbolKind) -> bool {
    kind is Struct || kind is Union || kind is Enum || kind is Trait || kind is TypeAlias
        || kind is TypeParam
}

pub struct ExprChecker {
    pub ctx: SemaContext,
    /// The binding of each inference variable, by index.
    pub type_vars: Vec<Option<TypeId>>,
    /// Trait bounds in force: a type, and the traits it is bound to implement.
    pub active_bounds: Vec<(TypeId, Vec<TypeId>)>,
    /// Trait implementations: the implementing type and the implemented trait.
    pub impls: Vec<(TypeId, TypeId)>,
    /// The current scope and its module, as last looked up.
    pub current_module_cache: Option<(ScopeId, Option<DefId>)>,
}

impl ExprChecker {
    pub open spec fn wf(self) -> bool {
        self.ctx.wf()
    }

    /// `t` with inference variables followed to what they are bound to.
    pub open spec fn resolved(self, t: TypeId) -> TypeId {
        tv_chain(self.ctx.types, self.type_vars@, t, self.type_vars@.len())
    }

    pub open spec fn kind_of(self, t: TypeId) -> TypeKind {
        self.ctx.types.kind(self.resolved(t))
    }

    pub fn new(ctx: SemaContext) -> (r: Self)
        requires
            ctx.wf(),
        ensures
            r.wf(),
            r.ctx == ctx,
            r.type_vars@.len() == 0,
            r.active_bounds@.len() == 0,
            r.impls@.len() == 0,
            r.current_module_cache is None,
    {
        ExprChecker {
            ctx,
            type_vars: Vec::new(),
            active_bounds: Vec::new(),
            impls: Vec::new(),
            current_module_cache: None,
        }
    }

    /// Follows inference-variable bindings from `ty` to the type they stand for.
    pub fn resolve_tv(&self, ty: TypeId) -> (r: TypeId)
        requires
            self.wf(),
        ensures
            r == self.resolved(ty),
            self.ctx.types.valid(r),
            !(self.ctx.types.kind(r) is Alias),
    {
        proof {
            lemma_tv_chain_valid(self.ctx.types, self.type_vars@, ty, self.type_vars@.len());
        }
        let ghost tvs = self.type_vars@;
        let mut curr = ty;
        let mut fuel: usize = self.type_vars.len();
        loop
            invariant
                self.wf(),
                tvs == self.type_vars@,
                fuel <= tvs.len(),
                tv_chain(self.ctx.types, tvs, curr, fuel as nat) == tv_chain(
                    self.ctx.types,
                    tvs,
                    ty,
                    tvs.len(),
                ),
            decreases fuel,
        {
            let t0 = if (curr as usize) < self.ctx.types.num_types() {
                curr
            } else {
                TY_ERROR
            };
            let norm = self.ctx.types.normalize(t0);
            match self.ctx.types.get(norm) {
                TypeKind::TypeVar(v) => {
                    if fuel > 0 && (*v as usize) < self.type_vars.len() {
                        match self.type_vars[*v as usize] {
                            Some(target) => {
                                curr = target;
                                fuel = fuel - 1;
                            },
                            None => {
                                return norm;
                            },
                        }
                    } else {
                        return norm;
                    }
                },
                _ => {
                    return norm;
                },
            }
        }
    }

    /// Whether a symbol of this kind lives in the type namespace.
    pub fn symbol_is_type_namespace(kind: SymbolKind) -> (r: bool)
        ensures
            r == is_type_namespace_kind(kind),
    {
        match kind {
            SymbolKind::Struct | SymbolKind::Union | SymbolKind::Enum | SymbolKind::Trait
            | SymbolKind::TypeAlias | SymbolKind::TypeParam => true,
            _ => false,
        }
    }

    /// Whether `ty` is a signed integer type.
    pub fn is_signed_integer_type(&self, ty: TypeId) -> (r: bool)
        requires
            self.wf(),
        ensures
            r == (self.resolved(ty) == TY_I8 || self.resolved(ty) == TY_I16 || self.resolved(ty)
                == TY_I32 || self.resolved(ty) == TY_I64 || self.resolved(ty) == TY_I128
                || self.resolved(ty) == TY_ISIZE),
    {
        let t = self.resolve_tv(ty);
        t == TY_I8 || t == TY_I16 || t == TY_I32 || t == TY_I64 || t == TY_I128 || t == TY_ISIZE
    }

    /// The function definition a callee type names.
    pub fn intrinsic_def_from_callee_ty(&self, callee_ty: TypeId) -> (r: Option<DefId>)
        requires
            self.wf(),
        ensures
            r == (match self.ctx.types.kind(self.ctx.types.norm(known_ty(self.ctx.types, callee_ty))) {
                TypeKind::FnDef(d, _) => Some(d),
                _ => None,
            }),
    {
        let t0 = if (callee_ty as usize) < self.ctx.types.num_types() {
            callee_ty
        } else {
            TY_ERROR
        };
        match self.ctx.types.get(self.ctx.types.normalize(t0)) {
            TypeKind::FnDef(d, _) => Some(*d),
            _ => None,
        }
    }

    /// The generic argument at `index` of a callee type.
    pub fn intrinsic_generic_arg(&self, callee_ty: TypeId, index: usize) -> (r: Option<TypeId>)
        requires
            self.wf(),
        ensures
            r == (match self.ctx.types.kind(self.ctx.types.norm(known_ty(self.ctx.types, callee_ty))) {
                TypeKind::FnDef(_, args) => if index < args@.len() {
                    Some(args@[index as int])
                } else {
                    None
                },
                _ => None,
            }),
    {
        let t0 = if (callee_ty as usize) < self.ctx.types.num_types() {
            callee_ty
        } else {
            TY_ERROR
        };
        match self.ctx.types.get(self.ctx.types.normalize(t0)) {
            TypeKind::FnDef(_, args) => {
                if index < args.len() {
                    Some(args[index])
                } else {
                    None
                }
            },
            _ => None,
        }
    }

    /// Whether `ty` is a pointer (plain or volatile) through which one may write.
    pub fn is_mut_pointer(&self, ty: TypeId) -> (r: bool)
        requires
            self.wf(),
        ensures
            r == (match self.kind_of(ty) {
                TypeKind::Pointer { is_mut, .. } => is_mut,
                TypeKind::VolatilePtr { is_mut, .. } => is_mut,
                _ => false,
            }),
    {
        let t = self.resolve_tv(ty);
        match self.ctx.types.get(t) {
            TypeKind::Pointer { is_mut, .. } | TypeKind::VolatilePtr { is_mut, .. } => *is_mut,
            _ => false,
        }
    }
}


impl ExprChecker {
    /// Everything but the diagnostics is as in `self`.
    pub open spec fn same_but_diags(self, after: Self) -> bool {
        &&& after.ctx.types == self.ctx.types
        &&& after.ctx.defs == self.ctx.defs
        &&& after.ctx.scopes == self.ctx.scopes
        &&& after.ctx.current_scope == self.ctx.current_scope
        &&& after.ctx.max_atomic_bits == self.ctx.max_atomic_bits
        &&& after.type_vars == self.type_vars
        &&& after.active_bounds == self.active_bounds
        &&& after.impls == self.impls
        &&& after.current_module_cache == self.current_module_cache
    }

    /// Reports `code` at `span` where `cond` holds.
    pub fn report(&mut self, cond: bool, code: DiagCode, span: Span)
        ensures
            final(self).ctx.diags@ == old(self).ctx.diags@ + diag_if(cond, Diagnostic { code, span }),
            old(self).same_but_diags(*final(self)),
    {
        if cond {
            self.ctx.diags.push(Diagnostic { code, span });
        } else {
            assert(old(self).ctx.diags@ + diag_if(cond, Diagnostic { code, span }) =~= old(
                self,
            ).ctx.diags@);
        }
    }

    /// Evaluates `e` as a usize-like constant, keeping the evaluator's diagnostics.
    pub fn const_usize(&mut self, e: &Expr) -> (r: Result<u64, ConstEvalError>)
        requires
            old(self).wf(),
        ensures
            pure_sem(old(self).ctx.types, Seq::empty(), *e, 0) matches Some(res) ==> r == usize_of(
                res,
            ),
            old(self).same_but_diags(*final(self)),
            old(self).ctx.diags@.is_prefix_of(final(self).ctx.diags@),
    {
        let mut ev = ConstEvaluator::new();
        assert(ev.core.substs() =~= Seq::empty());
        let r = ev.eval_usize(&self.ctx, e);
        self.take_diags(ev.diags);
        r
    }

    /// Evaluates `e` to a constant, keeping the evaluator's diagnostics.
    pub fn const_value(&mut self, e: &Expr) -> (r: Result<ConstValue, ConstEvalError>)
        requires
            old(self).wf(),
        ensures
            pure_sem(old(self).ctx.types, Seq::empty(), *e, 0) matches Some(res) ==> r == res,
            old(self).same_but_diags(*final(self)),
            old(self).ctx.diags@.is_prefix_of(final(self).ctx.diags@),
    {
        let mut ev = ConstEvaluator::new();
        assert(ev.core.substs() =~= Seq::empty());
        let r = ev.eval_const_value(&self.ctx, e);
        self.take_diags(ev.diags);
        r
    }

    fn take_diags(&mut self, ds: Vec<Diagnostic>)
        ensures
            final(self).ctx.diags@ == old(self).ctx.diags@ + ds@,
            old(self).same_but_diags(*final(self)),
    {
        let mut i: usize = 0;
        while i < ds.len()
            invariant
                i <= ds@.len(),
                self.ctx.diags@ == old(self).ctx.diags@ + ds@.subrange(0, i as int),
                old(self).same_but_diags(*self),
            decreases ds@.len() - i,
        {
            self.ctx.diags.push(ds[i]);
            i = i + 1;
            assert(self.ctx.diags@ =~= old(self).ctx.diags@ + ds@.subrange(0, i as int));
        }
        assert(ds@.subrange(0, i as int) =~= ds@);
    }
}

/// `d` where `cond` holds, nothing otherwise.
pub open spec fn diag_if(cond: bool, d: Diagnostic) -> Seq<Diagnostic> {
    if cond {
        seq![d]
    } else {
        Seq::empty()
    }
}
} // verus!
