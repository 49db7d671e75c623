//! Checking names and accesses: identifiers and `self`, payload-free enum
//! variants, indexing, and whether an expression names a type.

use vstd::prelude::*;
use crate::types::{TypeId, SymbolId, DefId, TypeKind, TY_ERROR, children_below};
use crate::context::{Def, Diagnostic, DiagCode, SymbolInfo, SymbolKind, EnumVariant};
use crate::ast::{Expr, ExprKind, Span};
use crate::checker::{ExprChecker, is_type_namespace_kind};
use crate::lookup::first_of;
use crate::eval::{variant_index, first_variant, enum_variants, lemma_variant_index_of};
use crate::eval_spec::{pure_sem, usize_of};
use crate::traits::lemma_prefix_refl;
use crate::subst::subst_rel;
use crate::coerce::fn_arg_map;

verus! {

/// The symbol names a type by its kind: a function, a module, a struct or
/// union, an enum, or a trait with its definition.
pub open spec fn names_type(info: SymbolInfo) -> bool {
    info.def_id is Some && (info.kind is Function || info.kind is Module || info.kind is Struct || info.kind is Union
        || info.kind is Enum || info.kind is Trait)
}

/// `k` is the type the symbol names by its kind, without generic arguments.
pub open spec fn names_kind(info: SymbolInfo, k: TypeKind) -> bool {
    match info.def_id {
        Some(d) => match info.kind {
            SymbolKind::Function => k matches TypeKind::FnDef(e, a) && e == d && a@.len() == 0,
            SymbolKind::Module => k == TypeKind::Module(d),
            SymbolKind::Struct | SymbolKind::Union => k matches TypeKind::Def(e, a) && e == d && a@.len() == 0,
            SymbolKind::Enum => k matches TypeKind::Enum(e, a) && e == d && a@.len() == 0,
            SymbolKind::Trait => k matches TypeKind::TraitObject(e, a) && e == d && a@.len() == 0,
            _ => false,
        },
        None => false,
    }
}

/// The type the symbol names by its kind, where it names one.
fn named_type_kind(info: &SymbolInfo) -> (r: Option<TypeKind>)
    ensures
        r is Some <==> names_type(*info),
        r matches Some(k) ==> crate::types::children_below(k, 0) && forall|x: TypeKind|
            crate::types::same_kind(x, k) <==> names_kind(*info, x),
{
    let d = match info.def_id {
        Some(d) => d,
        None => {
            return None;
        },
    };
    match info.kind {
        SymbolKind::Function => {
            let a: Vec<TypeId> = Vec::new();
            let ghost info0 = *info;
            proof {
                assert forall|x: TypeKind| crate::types::same_kind(x, TypeKind::FnDef(d, a)) <==> names_kind(info0, x) by {
                    if let TypeKind::FnDef(_, b) = x {
                        if b@.len() == 0 {
                            assert(b@ =~= a@);
                        }
                    }
                }
            }
            Some(TypeKind::FnDef(d, a))
        },
        SymbolKind::Module => Some(TypeKind::Module(d)),
        SymbolKind::Struct | SymbolKind::Union => {
            let a: Vec<TypeId> = Vec::new();
            let ghost info0 = *info;
            proof {
                assert forall|x: TypeKind| crate::types::same_kind(x, TypeKind::Def(d, a)) <==> names_kind(info0, x) by {
                    if let TypeKind::Def(_, b) = x {
                        if b@.len() == 0 {
                            assert(b@ =~= a@);
                        }
                    }
                }
            }
            Some(TypeKind::Def(d, a))
        },
        SymbolKind::Enum => {
            let a: Vec<TypeId> = Vec::new();
            let ghost info0 = *info;
            proof {
                assert forall|x: TypeKind| crate::types::same_kind(x, TypeKind::Enum(d, a)) <==> names_kind(info0, x) by {
                    if let TypeKind::Enum(_, b) = x {
                        if b@.len() == 0 {
                            assert(b@ =~= a@);
                        }
                    }
                }
            }
            Some(TypeKind::Enum(d, a))
        },
        SymbolKind::Trait => {
            let a: Vec<TypeId> = Vec::new();
            let ghost info0 = *info;
            proof {
                assert forall|x: TypeKind| crate::types::same_kind(x, TypeKind::TraitObject(d, a)) <==> names_kind(info0, x) by {
                    if let TypeKind::TraitObject(_, b) = x {
                        if b@.len() == 0 {
                            assert(b@ =~= a@);
                        }
                    }
                }
            }
            Some(TypeKind::TraitObject(d, a))
        },
        _ => None,
    }
}

impl ExprChecker {
    /// The type of a symbol that names no type by its kind: its recorded
    /// type, or, for a global whose type is not recorded yet, the type of its
    /// initializer.
    pub open spec fn symbol_value_type(self, info: SymbolInfo) -> TypeId {
        if info.type_id == TY_ERROR && (info.def_id matches Some(d) && d < self.ctx.defs@.len()
            && self.ctx.defs@[d as int] is Global) {
            match self.ctx.defs@[info.def_id.unwrap() as int] {
                Def::Global { value } => value.ty,
                _ => info.type_id,
            }
        } else {
            info.type_id
        }
    }

    fn interned_or_error(&mut self, k: TypeKind) -> (r: TypeId)
        requires
            old(self).wf(),
            crate::types::children_below(k, old(self).ctx.types.len() as int),
        ensures
            old(self).grows_to(*final(self)),
            final(self).ctx.types.len() < u32::MAX ==> first_of(final(self).ctx.types, k, r),
    {
        match self.intern_ty(k) {
            Some(x) => x,
            None => TY_ERROR,
        }
    }

    /// The type of the identifier `name`: a function, module, struct,
    /// union, enum or trait names the type that stands for it; any other
    /// symbol has its own type. An undeclared name is reported at `span`.
    pub fn check_identifier(&mut self, name: SymbolId, span: Span) -> (r: TypeId)
        requires
            old(self).wf(),
        ensures
            old(self).grows_reporting(*final(self)),
            match old(self).ctx.resolves_here(name) {
                None => r == TY_ERROR && final(self).ctx.diags@ == old(self).ctx.diags@.push(
                    Diagnostic { code: DiagCode::UndeclaredIdentifier, span },
                ),
                Some(info) => final(self).ctx.diags == old(self).ctx.diags && if names_type(info) {
                    final(self).ctx.types.len() < u32::MAX ==> final(self).ctx.types.valid(r) && names_kind(
                        info,
                        final(self).ctx.types.kind(r),
                    ) && forall|j: int| 0 <= j < r ==> !names_kind(info, #[trigger] final(self).ctx.types.kinds()[j])
                } else {
                    r == old(self).symbol_value_type(info)
                },
            },
    {
        proof {
            lemma_prefix_refl(self.ctx.types.kinds());
            lemma_prefix_refl(self.ctx.diags@);
        }
        let info = match self.ctx.resolve(name) {
            Some(i) => i,
            None => {
                self.report(true, DiagCode::UndeclaredIdentifier, span);
                proof {
                    assert(self.ctx.diags@ =~= old(self).ctx.diags@.push(
                        Diagnostic { code: DiagCode::UndeclaredIdentifier, span },
                    ));
                    assert(old(self).ctx.diags@ =~= self.ctx.diags@.subrange(0, old(self).ctx.diags@.len() as int));
                    old(self).lemma_reporting_from(*self);
                }
                return TY_ERROR;
            },
        };
        if let Some(d) = info.def_id {
            if let Some(k) = named_type_kind(&info) {
                let ghost gk = k;
                let r = self.interned_or_error(k);
                proof {
                    old(self).lemma_reporting_from(*self);
                }
                return r;
            }
            if info.type_id == TY_ERROR && (d as usize) < self.ctx.defs.len() {
                if let Def::Global { value } = &self.ctx.defs[d as usize] {
                    return value.ty;
                }
            }
        }
        info.type_id
    }

    /// The type of `self`: that of the symbol `self_var`, or else of
    /// `self_type`; reported at `span` where neither is in scope.
    pub fn check_self_value(&mut self, span: Span, self_var: SymbolId, self_type: SymbolId) -> (r: TypeId)
        requires
            old(self).wf(),
        ensures
            old(self).same_but_diags(*final(self)),
            match old(self).ctx.resolves_here(self_var) {
                Some(info) => r == info.type_id && final(self).ctx.diags == old(self).ctx.diags,
                None => match old(self).ctx.resolves_here(self_type) {
                    Some(info) => r == info.type_id && final(self).ctx.diags == old(self).ctx.diags,
                    None => r == TY_ERROR && final(self).ctx.diags@ == old(self).ctx.diags@.push(
                        Diagnostic { code: DiagCode::SelfUnavailable, span },
                    ),
                },
            },
    {
        if let Some(info) = self.ctx.resolve(self_var) {
            info.type_id
        } else if let Some(info) = self.ctx.resolve(self_type) {
            info.type_id
        } else {
            self.report(true, DiagCode::SelfUnavailable, span);
            proof {
                assert(self.ctx.diags@ =~= old(self).ctx.diags@.push(Diagnostic { code: DiagCode::SelfUnavailable, span }));
            }
            TY_ERROR
        }
    }
}

impl ExprChecker {
    /// The first variant named `name` of the enum definition `d`, by
    /// position, with its payload type; `None` where `d` is no enum
    /// definition.
    fn lookup_variant(&self, d: DefId, name: SymbolId) -> (r: Option<Option<(usize, Option<TypeId>)>>)
        ensures
            r == match enum_variants(self.ctx, d) {
                None => None,
                Some(vs) => Some(
                    match variant_index(vs, name) {
                        None => None,
                        Some(i) => Some((i as usize, vs[i].payload)),
                    },
                ),
            },
    {
        if (d as usize) >= self.ctx.defs.len() {
            return None;
        }
        match &self.ctx.defs[d as usize] {
            Def::Enum { variants, .. } => match find_variant(variants, name) {
                None => Some(None),
                Some(i) => Some(Some((i, variants[i].payload))),
            },
            _ => None,
        }
    }

    /// The type of `Enum.Variant` written for a variant without payload,
    /// `target_ty` being the enum type: the enum type itself; a missing
    /// variant or one that needs a payload is reported at `span` and gives
    /// the error type. `None` where `target_ty` is no enum.
    pub fn check_payloadless_enum_variant_access(
        &mut self,
        target_ty: TypeId,
        field: SymbolId,
        field_span: Span,
        span: Span,
    ) -> (r: Option<TypeId>)
        requires
            old(self).wf(),
        ensures
            old(self).same_but_diags(*final(self)),
            !(old(self).kind_of(target_ty) is Enum) ==> r is None && *final(self) == *old(self),
            old(self).kind_of(target_ty) matches TypeKind::Enum(d, _) ==> match enum_variants(old(self).ctx, d) {
                None => r is None && final(self).ctx.diags@ == old(self).ctx.diags@.push(
                    Diagnostic { code: DiagCode::EnumDefExpected, span },
                ),
                Some(vs) => match variant_index(vs, field) {
                    None => r == Some(TY_ERROR) && final(self).ctx.diags@ == old(self).ctx.diags@.push(
                        Diagnostic { code: DiagCode::VariantNotFound, span },
                    ),
                    Some(i) => if vs[i].payload is Some {
                        r == Some(TY_ERROR) && final(self).ctx.diags@ == old(self).ctx.diags@.push(
                            Diagnostic { code: DiagCode::VariantNeedsPayload, span },
                        )
                    } else {
                        r == Some(target_ty) && final(self).ctx.diags == old(self).ctx.diags
                    },
                },
            },
    {
        let norm = self.resolve_tv(target_ty);
        let d = match self.ctx.types.get(norm) {
            TypeKind::Enum(d, _) => *d,
            _ => {
                return None;
            },
        };
        match self.lookup_variant(d, field) {
            None => {
                self.report(true, DiagCode::EnumDefExpected, span);
                proof {
                    assert(self.ctx.diags@ =~= old(self).ctx.diags@.push(Diagnostic { code: DiagCode::EnumDefExpected, span }));
                }
                None
            },
            Some(None) => {
                self.report(true, DiagCode::VariantNotFound, span);
                proof {
                    assert(self.ctx.diags@ =~= old(self).ctx.diags@.push(Diagnostic { code: DiagCode::VariantNotFound, span }));
                }
                Some(TY_ERROR)
            },
            Some(Some((_, payload))) => {
                if payload.is_some() {
                    self.report(true, DiagCode::VariantNeedsPayload, span);
                    proof {
                        assert(self.ctx.diags@ =~= old(self).ctx.diags@.push(
                            Diagnostic { code: DiagCode::VariantNeedsPayload, span },
                        ));
                    }
                    Some(TY_ERROR)
                } else {
                    Some(target_ty)
                }
            },
        }
    }

    /// The payload type of the variant `variant_name` of the enum type
    /// `norm_target`, with the enum's generic parameters replaced by the
    /// type's arguments: `Some(None)` for a variant without payload, `None`
    /// where there is no such variant or no enum.
    pub fn variant_payload_type(&mut self, norm_target: TypeId, variant_name: SymbolId, span: Span) -> (r: Option<
        Option<TypeId>,
    >)
        requires
            old(self).wf(),
            old(self).tvars_valid(),
        ensures
            old(self).grows_reporting(*final(self)),
            final(self).tvars_valid(),
            !(old(self).ctx.types.kind(norm_target) is Enum) || !old(self).ctx.types.valid(norm_target) ==> r is None
                && *final(self) == *old(self),
            old(self).ctx.types.valid(norm_target) ==> (old(self).ctx.types.kind(norm_target) matches TypeKind::Enum(
                d,
                args,
            ) ==> match enum_variants(old(self).ctx, d) {
                None => r is None && final(self).ctx.diags@ == old(self).ctx.diags@.push(
                    Diagnostic { code: DiagCode::EnumDefExpected, span },
                ),
                Some(vs) => final(self).ctx.diags == old(self).ctx.diags && match variant_index(vs, variant_name) {
                    None => r is None,
                    Some(i) => match vs[i].payload {
                        None => r == Some(None::<TypeId>),
                        Some(t) => r matches Some(Some(u)) && if enum_generics(old(self).ctx, d).len() > 0
                            && args@.len() > 0 {
                            subst_rel(final(self).ctx.types, fn_arg_map(enum_generics(old(self).ctx, d), args@), t, u)
                                || (u == TY_ERROR && final(self).ctx.types.len() >= u32::MAX)
                        } else {
                            u == t
                        },
                    },
                },
            }),
    {
        proof {
            lemma_prefix_refl(self.ctx.types.kinds());
            lemma_prefix_refl(self.ctx.diags@);
        }
        if (norm_target as usize) >= self.ctx.types.num_types() {
            return None;
        }
        proof {
            assert(children_below(self.ctx.types.kinds()[norm_target as int], norm_target as int));
        }
        let (d, args) = match self.ctx.types.get(norm_target) {
            TypeKind::Enum(d, a) => (*d, crate::subst::copy_ids(a)),
            _ => {
                return None;
            },
        };
        match self.lookup_variant(d, variant_name) {
            None => {
                self.report(true, DiagCode::EnumDefExpected, span);
                proof {
                    assert(self.ctx.diags@ =~= old(self).ctx.diags@.push(Diagnostic { code: DiagCode::EnumDefExpected, span }));
                    assert(old(self).ctx.diags@ =~= self.ctx.diags@.subrange(0, old(self).ctx.diags@.len() as int));
                    old(self).lemma_reporting_from(*self);
                }
                None
            },
            Some(None) => None,
            Some(Some((_, None))) => Some(None),
            Some(Some((_, Some(t)))) => {
                let generics = self.enum_generics_of(d);
                let map = match self.build_generic_arg_map(&generics, &args) {
                    Some(m) => m,
                    None => {
                        return Some(Some(t));
                    },
                };
                proof {
                    crate::signature::lemma_fn_arg_map_valid(self.ctx.types, generics@, args@);
                }
                let u = match self.subst_in(&map, t) {
                    Some(x) => x,
                    None => TY_ERROR,
                };
                proof {
                    old(self).lemma_reporting_from(*self);
                    old(self).lemma_grows(*self, 0);
                }
                Some(Some(u))
            },
        }
    }

    fn enum_generics_of(&self, d: DefId) -> (r: Vec<SymbolId>)
        ensures
            r@ == enum_generics(self.ctx, d),
    {
        if (d as usize) < self.ctx.defs.len() {
            match &self.ctx.defs[d as usize] {
                Def::Enum { generics, .. } => crate::subst::copy_ids(generics),
                _ => Vec::new(),
            }
        } else {
            Vec::new()
        }
    }
}

/// The generic parameters of the enum definition `d`.
pub open spec fn enum_generics(ctx: crate::context::SemaContext, d: DefId) -> Seq<SymbolId> {
    if d < ctx.defs@.len() {
        match ctx.defs@[d as int] {
            Def::Enum { generics, .. } => generics@,
            _ => Seq::empty(),
        }
    } else {
        Seq::empty()
    }
}

impl ExprChecker {
    /// `e` names a type: a type written as a value, a name of the type
    /// namespace, an instantiation of one, or such a name in a module.
    pub open spec fn type_namespace(self, e: Expr) -> bool
        decreases e,
    {
        match e.kind {
            ExprKind::TypeNode(_) => true,
            ExprKind::Identifier(n) => self.ctx.resolves_here(n) matches Some(info) && is_type_namespace_kind(
                info.kind,
            ),
            ExprKind::GenericInstantiation { target, .. } => self.type_namespace(*target),
            ExprKind::FieldAccess { lhs, field } => match self.kind_of(lhs.ty) {
                TypeKind::Module(d) => d < self.ctx.defs@.len() && (self.ctx.defs@[d as int] matches Def::Module {
                    scope_id,
                    ..
                } && self.ctx.resolves(scope_id, field) matches Some(info) && is_type_namespace_kind(info.kind)),
                _ => false,
            },
            _ => false,
        }
    }

    /// Whether `expr` names a type rather than a value; a module type
    /// without a module definition is reported at the expression.
    pub fn expr_is_type_namespace(&mut self, expr: &Expr) -> (r: bool)
        requires
            old(self).wf(),
        ensures
            r == old(self).type_namespace(*expr),
            old(self).same_but_diags(*final(self)),
            old(self).ctx.diags@.is_prefix_of(final(self).ctx.diags@),
        decreases expr,
    {
        proof {
            lemma_prefix_refl(self.ctx.diags@);
        }
        match &expr.kind {
            ExprKind::TypeNode(_) => true,
            ExprKind::Identifier(n) => match self.ctx.resolve(*n) {
                Some(info) => Self::symbol_is_type_namespace(info.kind),
                None => false,
            },
            ExprKind::GenericInstantiation { target, .. } => self.expr_is_type_namespace(target),
            ExprKind::FieldAccess { lhs, field } => {
                let lhs_norm = self.resolve_tv(lhs.ty);
                let d = match self.ctx.types.get(lhs_norm) {
                    TypeKind::Module(d) => *d,
                    _ => {
                        return false;
                    },
                };
                let scope = if (d as usize) < self.ctx.defs.len() {
                    match &self.ctx.defs[d as usize] {
                        Def::Module { scope_id, .. } => Some(*scope_id),
                        _ => None,
                    }
                } else {
                    None
                };
                match scope {
                    Some(sc) => match self.ctx.resolve_from(sc, *field) {
                        Some(info) => Self::symbol_is_type_namespace(info.kind),
                        None => false,
                    },
                    None => {
                        self.report(true, DiagCode::ExpectedModuleDef, expr.span);
                        proof {
                            assert(old(self).ctx.diags@ =~= self.ctx.diags@.subrange(0, old(self).ctx.diags@.len() as int));
                        }
                        false
                    },
                }
            },
            _ => false,
        }
    }

    /// The type of `lhs[index]`: the element type of an array or slice, or
    /// the lane type of a SIMD vector where the index is a constant lane
    /// in range. Mutable indexing, a non-integer index, a lane index that is
    /// no constant or out of range, and a value that cannot be indexed are
    /// reported.
    pub fn check_index_access(&mut self, lhs: &Expr, index: &Expr, is_mut: bool, span: Span) -> (r: TypeId)
        requires
            old(self).wf(),
        ensures
            old(self).same_but_diags(*final(self)),
            old(self).ctx.diags@.is_prefix_of(final(self).ctx.diags@),
            is_mut ==> final(self).ctx.diags@.len() > old(self).ctx.diags@.len() && final(self).ctx.diags@[old(
                self,
            ).ctx.diags@.len() as int] == (Diagnostic { code: DiagCode::MutIndexUnsupported, span }),
            match old(self).kind_of(lhs.ty) {
                TypeKind::Array { elem, .. } | TypeKind::Slice { elem, .. } => r == elem,
                TypeKind::Simd { elem, lanes } => (r == elem || r == TY_ERROR) && (pure_sem(
                    old(self).ctx.types,
                    Seq::empty(),
                    *index,
                    0,
                ) matches Some(res) ==> (if usize_of(res) matches Ok(l) && l < lanes {
                    r == elem
                } else {
                    r == TY_ERROR
                })),
                TypeKind::Error => r == TY_ERROR,
                _ => r == TY_ERROR && final(self).ctx.diags@.last() == (Diagnostic {
                    code: DiagCode::NotIndexable,
                    span: lhs.span,
                }),
            },
    {
        proof {
            lemma_prefix_refl(self.ctx.diags@);
        }
        if is_mut {
            self.report(true, DiagCode::MutIndexUnsupported, span);
        }
        let ghost s1 = *self;
        proof {
            assert(old(self).ctx.diags@ =~= self.ctx.diags@.subrange(0, old(self).ctx.diags@.len() as int));
        }
        let norm_idx = self.resolve_tv(index.ty);
        let bad_index = !self.ctx.types.is_integer(norm_idx) && norm_idx != TY_ERROR;
        self.report(bad_index, DiagCode::IndexNotInteger, index.span);
        let ghost s2 = *self;
        proof {
            assert(s1.ctx.diags@ =~= self.ctx.diags@.subrange(0, s1.ctx.diags@.len() as int));
            crate::eval::lemma_prefix_trans(old(self).ctx.diags@, s1.ctx.diags@, self.ctx.diags@);
        }
        let norm_lhs = self.resolve_tv(lhs.ty);
        let r = match self.ctx.types.get(norm_lhs) {
            TypeKind::Simd { elem, lanes } => {
                let (elem, lanes) = (*elem, *lanes);
                let lane = self.const_usize(index);
                proof {
                    crate::eval::lemma_prefix_trans(old(self).ctx.diags@, s2.ctx.diags@, self.ctx.diags@);
                }
                match lane {
                    Err(_) => {
                        let ghost s3 = *self;
                        self.report(true, DiagCode::SimdLaneNotConst, index.span);
                        proof {
                            assert(s3.ctx.diags@ =~= self.ctx.diags@.subrange(0, s3.ctx.diags@.len() as int));
                            crate::eval::lemma_prefix_trans(old(self).ctx.diags@, s3.ctx.diags@, self.ctx.diags@);
                        }
                        TY_ERROR
                    },
                    Ok(l) => {
                        if l >= lanes as u64 {
                            let ghost s3 = *self;
                            self.report(true, DiagCode::SimdLaneOutOfBounds, index.span);
                            proof {
                                assert(s3.ctx.diags@ =~= self.ctx.diags@.subrange(0, s3.ctx.diags@.len() as int));
                                crate::eval::lemma_prefix_trans(old(self).ctx.diags@, s3.ctx.diags@, self.ctx.diags@);
                            }
                            TY_ERROR
                        } else {
                            elem
                        }
                    },
                }
            },
            TypeKind::Array { elem, .. } | TypeKind::Slice { elem, .. } => *elem,
            TypeKind::Error => TY_ERROR,
            _ => {
                let ghost s3 = *self;
                self.report(true, DiagCode::NotIndexable, lhs.span);
                proof {
                    assert(s3.ctx.diags@ =~= self.ctx.diags@.subrange(0, s3.ctx.diags@.len() as int));
                    crate::eval::lemma_prefix_trans(old(self).ctx.diags@, s3.ctx.diags@, self.ctx.diags@);
                }
                TY_ERROR
            },
        };
        proof {
            if is_mut {
                crate::infer::lemma_prefix_index(s1.ctx.diags@, self.ctx.diags@, old(self).ctx.diags@.len() as int);
            }
        }
        r
    }
}

/// The storage behind a value of kind `k` can be written through.
pub open spec fn base_allows_mut(k: TypeKind) -> bool {
    match k {
        TypeKind::Pointer { is_mut, .. } | TypeKind::VolatilePtr { is_mut, .. } | TypeKind::Slice { is_mut, .. }
        | TypeKind::Array { is_mut, .. } | TypeKind::ArrayInfer { is_mut, .. } => is_mut,
        _ => false,
    }
}

/// The element type a value of kind `k` can be sliced into.
pub open spec fn sliceable_elem(k: TypeKind) -> Option<TypeId> {
    match k {
        TypeKind::Array { elem, .. } | TypeKind::Slice { elem, .. } | TypeKind::Pointer { elem, .. }
        | TypeKind::VolatilePtr { elem, .. } => Some(elem),
        _ => None,
    }
}

impl ExprChecker {
    /// The type of the slice `lhs[start..end]` (`..[` for a mutable one): a
    /// slice of the element type of an array, slice or pointer. A bound that
    /// is no integer, a mutable slice of storage that cannot be written, and
    /// a value that cannot be sliced are reported.
    pub fn check_slice_op(
        &mut self,
        lhs: &Expr,
        start: &Option<Box<Expr>>,
        end: &Option<Box<Expr>>,
        is_inclusive: bool,
        is_mut: bool,
        span: Span,
    ) -> (r: TypeId)
        requires
            old(self).wf(),
        ensures
            old(self).grows_reporting(*final(self)),
            match sliceable_elem(old(self).kind_of(lhs.ty)) {
                Some(elem) => final(self).ctx.types.len() < u32::MAX ==> final(self).ctx.types.valid(r)
                    && (final(self).ctx.types.kind(r) matches TypeKind::Slice { is_mut: m, elem: e } && m == is_mut && e == elem),
                None => r == TY_ERROR,
            },
            is_mut && !base_allows_mut(old(self).kind_of(lhs.ty)) && !old(self).lvalue_mutable(*lhs) && lhs.ty
                != TY_ERROR ==> final(self).ctx.diags@.contains((Diagnostic { code: DiagCode::MutSliceOfImmutable, span })),
            !(old(self).kind_of(lhs.ty) is Error) && sliceable_elem(old(self).kind_of(lhs.ty)) is None
                ==> final(self).ctx.diags@.last() == (Diagnostic { code: DiagCode::NotSliceable, span: lhs.span }),
    {
        proof {
            lemma_prefix_refl(self.ctx.types.kinds());
            lemma_prefix_refl(self.ctx.diags@);
        }
        let norm_lhs = self.resolve_tv(lhs.ty);
        let base_mut = match self.ctx.types.get(norm_lhs) {
            TypeKind::Pointer { is_mut: m, .. } | TypeKind::VolatilePtr { is_mut: m, .. } | TypeKind::Slice {
                is_mut: m,
                ..
            } | TypeKind::Array { is_mut: m, .. } | TypeKind::ArrayInfer { is_mut: m, .. } => *m,
            _ => false,
        } || self.is_lvalue_mutable(lhs);
        if let Some(s) = start {
            let t = self.resolve_tv(s.ty);
            let bad = !self.ctx.types.is_integer(t);
            self.report(bad, DiagCode::SliceBoundNotInteger, s.span);
            proof {
                assert(old(self).ctx.diags@ =~= self.ctx.diags@.subrange(0, old(self).ctx.diags@.len() as int));
            }
        }
        let ghost s1 = *self;
        if let Some(e) = end {
            let t = self.resolve_tv(e.ty);
            let bad = !self.ctx.types.is_integer(t);
            self.report(bad, DiagCode::SliceBoundNotInteger, e.span);
            proof {
                assert(s1.ctx.diags@ =~= self.ctx.diags@.subrange(0, s1.ctx.diags@.len() as int));
                crate::eval::lemma_prefix_trans(old(self).ctx.diags@, s1.ctx.diags@, self.ctx.diags@);
            }
        }
        let ghost s2 = *self;
        let refuse = is_mut && !base_mut && lhs.ty != TY_ERROR;
        self.report(refuse, DiagCode::MutSliceOfImmutable, span);
        let ghost s3 = *self;
        proof {
            assert(s2.ctx.diags@ =~= self.ctx.diags@.subrange(0, s2.ctx.diags@.len() as int));
            crate::eval::lemma_prefix_trans(old(self).ctx.diags@, s2.ctx.diags@, self.ctx.diags@);
            old(self).lemma_reporting_from(*self);
            if refuse {
                assert(self.ctx.diags@[self.ctx.diags@.len() - 1] == Diagnostic { code: DiagCode::MutSliceOfImmutable, span });
            }
            assert(refuse ==> self.ctx.diags@.contains(Diagnostic { code: DiagCode::MutSliceOfImmutable, span }));
        }
        proof {
            assert(children_below(self.ctx.types.kinds()[norm_lhs as int], norm_lhs as int));
        }
        let elem = match self.ctx.types.get(norm_lhs) {
            TypeKind::Array { elem, .. } | TypeKind::Slice { elem, .. } | TypeKind::Pointer { elem, .. }
            | TypeKind::VolatilePtr { elem, .. } => Some(*elem),
            TypeKind::Error => None,
            _ => {
                self.report(true, DiagCode::NotSliceable, lhs.span);
                proof {
                    assert(s3.ctx.diags@ =~= self.ctx.diags@.subrange(0, s3.ctx.diags@.len() as int));
                    s3.lemma_reporting_from(*self);
                    old(self).lemma_reporting_trans(s3, *self);
                    if refuse {
                        crate::infer::lemma_prefix_index(s3.ctx.diags@, self.ctx.diags@, s3.ctx.diags@.len() - 1);
                        assert(self.ctx.diags@[s3.ctx.diags@.len() - 1] == Diagnostic { code: DiagCode::MutSliceOfImmutable, span });
                    }
                }
                return TY_ERROR;
            },
        };
        match elem {
            Some(elem) => {
                let r = match self.intern_ty(TypeKind::Slice { is_mut, elem }) {
                    Some(x) => x,
                    None => TY_ERROR,
                };
                proof {
                    s3.lemma_reporting_from(*self);
                    old(self).lemma_reporting_trans(s3, *self);
                    if refuse {
                        crate::infer::lemma_prefix_index(s3.ctx.diags@, self.ctx.diags@, s3.ctx.diags@.len() - 1);
                        assert(self.ctx.diags@[s3.ctx.diags@.len() - 1] == Diagnostic { code: DiagCode::MutSliceOfImmutable, span });
                    }
                }
                r
            },
            None => TY_ERROR,
        }
    }
}

/// The first variant of `vs` named `name`, by position.
fn find_variant(vs: &Vec<EnumVariant>, name: SymbolId) -> (r: Option<usize>)
    ensures
        r matches Some(i) ==> variant_index(vs@, name) == Some(i as int),
        r is None ==> variant_index(vs@, name) is None,
{
    let mut i: usize = 0;
    while i < vs.len()
        invariant
            i <= vs@.len(),
            forall|j: int| 0 <= j < i ==> (#[trigger] vs@[j]).name != name,
        decreases vs@.len() - i,
    {
        if vs[i].name == name {
            proof {
                lemma_variant_index_of(vs@, name, i as int);
            }
            return Some(i);
        }
        i = i + 1;
    }
    proof {
        assert(!exists|k: int| first_variant(vs@, name, k));
    }
    None
}

} // verus!
