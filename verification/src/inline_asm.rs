//! The check of `@asm`: one untyped struct literal naming the template, the
//! register bindings, the clobbers and the volatility of the inline assembly.

use vstd::prelude::*;
use crate::types::{TypeId, SymbolId, TypeKind, TypeRegistry, TY_ERROR, TY_VOID, TY_BOOL};
use crate::ast::{Expr, ExprKind, DataLiteral, FieldInit, Span};
use crate::context::{Diagnostic, DiagCode};
use crate::checker::{ExprChecker, diag_if, tv_chain};
use crate::value::ConstValue;
use crate::simd::lemma_prefix_append;

verus! {

/// The symbols of the `@asm` intrinsic and of the field names its
/// configuration may use.
#[derive(Clone, Copy, Debug)]
pub struct AsmFieldNames {
    /// The name of the `@asm` intrinsic itself.
    pub asm_intrinsic: SymbolId,
    pub template: SymbolId,
    pub outputs: SymbolId,
    pub inputs: SymbolId,
    pub clobbers: SymbolId,
    pub volatile: SymbolId,
}

pub open spec fn adiag(code: DiagCode, span: Span) -> Diagnostic {
    Diagnostic { code, span }
}

/// The fields of the configuration of an `@asm` call: its one argument, an
/// untyped struct literal.
pub open spec fn config_fields(args: Seq<Expr>) -> Option<Seq<FieldInit>> {
    if args.len() == 1 {
        match args[0].kind {
            ExprKind::DataInit { literal: DataLiteral::Struct(fs), typed } => if !typed {
                Some(fs@)
            } else {
                None
            },
            _ => None,
        }
    } else {
        None
    }
}

/// An untyped struct literal `.{ ... }`.
pub open spec fn untyped_struct(e: Expr) -> bool {
    e.kind matches ExprKind::DataInit { literal, typed } && !typed && literal is Struct
}

pub open spec fn is_str_lit(e: Expr) -> bool {
    e.kind is Str
}

impl ExprChecker {
    /// The problems of the register bindings of `outputs` (or `inputs`).
    pub open spec fn reg_diags(self, regs: Seq<FieldInit>, outputs: bool) -> Seq<Diagnostic> {
        reg_diags_in(self.ctx.types, self.type_vars@, regs, outputs)
    }

    pub open spec fn clobber_diags(self, cs: Seq<Expr>) -> Seq<Diagnostic> {
        clobber_diags_of(cs)
    }

    /// The problems of one field of an `@asm` configuration; `None` for a
    /// `volatile` flag, whose constant is evaluated.
    pub open spec fn asm_field_diags(self, f: FieldInit, names: AsmFieldNames) -> Option<Seq<Diagnostic>> {
        field_diags_in(self.ctx.types, self.type_vars@, f, names)
    }

    /// The problems of the fields of an `@asm` configuration, in order.
    pub open spec fn asm_fields_diags(self, fs: Seq<FieldInit>, names: AsmFieldNames) -> Option<
        Seq<Diagnostic>,
    > {
        fields_diags_in(self.ctx.types, self.type_vars@, fs, names)
    }

    /// Some field of `fs` names the template.
    pub open spec fn has_template(fs: Seq<FieldInit>, names: AsmFieldNames) -> bool {
        exists|j: int| 0 <= j < fs.len() && #[trigger] fs[j].name == names.template
    }
}

pub open spec fn reg_diags_in(
    types: TypeRegistry,
    tvs: Seq<Option<TypeId>>,
    regs: Seq<FieldInit>,
    outputs: bool,
) -> Seq<Diagnostic>
    decreases regs.len(),
{
    if regs.len() == 0 {
        Seq::empty()
    } else {
        let v = regs[0].value;
        diag_if(
            outputs && v.ty != TY_ERROR && !pointer_writable(
                types.kind(tv_chain(types, tvs, v.ty, tvs.len())),
            ),
            adiag(DiagCode::AsmOutputNotMutPointer, v.span),
        ) + reg_diags_in(types, tvs, regs.subrange(1, regs.len() as int), outputs)
    }
}

pub open spec fn clobber_diags_of(cs: Seq<Expr>) -> Seq<Diagnostic>
    decreases cs.len(),
{
    if cs.len() == 0 {
        Seq::empty()
    } else {
        diag_if(!is_str_lit(cs[0]), adiag(DiagCode::AsmClobberNotString, cs[0].span))
            + clobber_diags_of(cs.subrange(1, cs.len() as int))
    }
}

/// The problems of the fields of an `@asm` configuration, in order; `None`
/// where a `volatile` flag's constant is evaluated.
pub open spec fn fields_diags_in(
    types: TypeRegistry,
    tvs: Seq<Option<TypeId>>,
    fs: Seq<FieldInit>,
    names: AsmFieldNames,
) -> Option<Seq<Diagnostic>>
    decreases fs.len(),
{
    if fs.len() == 0 {
        Some(Seq::empty())
    } else {
        match (
            field_diags_in(types, tvs, fs[0], names),
            fields_diags_in(types, tvs, fs.subrange(1, fs.len() as int), names),
        ) {
            (Some(a), Some(b)) => Some(a + b),
            _ => None,
        }
    }
}

pub open spec fn field_diags_in(
    types: TypeRegistry,
    tvs: Seq<Option<TypeId>>,
    f: FieldInit,
    names: AsmFieldNames,
) -> Option<Seq<Diagnostic>> {
    if f.name == names.template {
        Some(diag_if(!is_str_lit(f.value), adiag(DiagCode::AsmTemplateNotString, f.value.span)))
    } else if f.name == names.outputs || f.name == names.inputs {
        match f.value.kind {
            ExprKind::DataInit { literal: DataLiteral::Struct(regs), .. } => Some(
                reg_diags_in(types, tvs, regs@, f.name == names.outputs),
            ),
            _ => Some(seq![adiag(DiagCode::AsmRegsNotStruct, f.value.span)]),
        }
    } else if f.name == names.clobbers {
        match f.value.kind {
            ExprKind::DataInit { literal: DataLiteral::Array(cs), .. } => Some(clobber_diags_of(cs@)),
            _ => Some(seq![adiag(DiagCode::AsmClobbersNotArray, f.value.span)]),
        }
    } else if f.name == names.volatile {
        if tv_chain(types, tvs, f.value.ty, tvs.len()) == TY_BOOL {
            None
        } else {
            Some(Seq::empty())
        }
    } else {
        Some(seq![adiag(DiagCode::AsmUnknownField, f.span)])
    }
}

/// A pointer through which one may write.
pub open spec fn pointer_writable(k: TypeKind) -> bool {
    match k {
        TypeKind::Pointer { is_mut, .. } | TypeKind::VolatilePtr { is_mut, .. } => is_mut,
        _ => false,
    }
}

impl ExprChecker {
    fn check_asm_regs(&mut self, regs: &Vec<FieldInit>, outputs: bool)
        requires
            old(self).wf(),
        ensures
            final(self).ctx.diags@ == old(self).ctx.diags@ + old(self).reg_diags(regs@, outputs),
            old(self).same_but_diags(*final(self)),
    {
        let mut j: usize = 0;
        assert(regs@.subrange(0, regs@.len() as int) =~= regs@);
        assert(old(self).ctx.diags@ + Seq::<Diagnostic>::empty() =~= old(self).ctx.diags@);
        while j < regs.len()
            invariant
                self.wf(),
                old(self).wf(),
                j <= regs@.len(),
                old(self).same_but_diags(*self),
                old(self).ctx.diags@ + old(self).reg_diags(regs@, outputs) == self.ctx.diags@
                    + old(self).reg_diags(regs@.subrange(j as int, regs@.len() as int), outputs),
            decreases regs@.len() - j,
        {
            let ghost rest = regs@.subrange(j as int, regs@.len() as int);
            assert(rest.subrange(1, rest.len() as int) =~= regs@.subrange(j + 1, regs@.len() as int));
            let v = &regs[j].value;
            let bad = outputs && v.ty != TY_ERROR && !self.is_mut_pointer(v.ty);
            let ghost before = self.ctx.diags@;
            self.report(bad, DiagCode::AsmOutputNotMutPointer, v.span);
            assert(before + (diag_if(bad, adiag(DiagCode::AsmOutputNotMutPointer, v.span))
                + old(self).reg_diags(regs@.subrange(j + 1, regs@.len() as int), outputs)) =~= self.ctx.diags@
                + old(self).reg_diags(regs@.subrange(j + 1, regs@.len() as int), outputs));
            j = j + 1;
        }
        assert(regs@.subrange(j as int, regs@.len() as int).len() == 0);
        assert(self.ctx.diags@ + Seq::<Diagnostic>::empty() =~= self.ctx.diags@);
    }

    fn check_asm_clobbers(&mut self, cs: &Vec<Expr>)
        requires
            old(self).wf(),
        ensures
            final(self).ctx.diags@ == old(self).ctx.diags@ + old(self).clobber_diags(cs@),
            old(self).same_but_diags(*final(self)),
    {
        let mut j: usize = 0;
        assert(cs@.subrange(0, cs@.len() as int) =~= cs@);
        while j < cs.len()
            invariant
                self.wf(),
                old(self).wf(),
                j <= cs@.len(),
                old(self).same_but_diags(*self),
                old(self).ctx.diags@ + old(self).clobber_diags(cs@) == self.ctx.diags@
                    + old(self).clobber_diags(cs@.subrange(j as int, cs@.len() as int)),
            decreases cs@.len() - j,
        {
            let ghost rest = cs@.subrange(j as int, cs@.len() as int);
            assert(rest.subrange(1, rest.len() as int) =~= cs@.subrange(j + 1, cs@.len() as int));
            let bad = match &cs[j].kind {
                ExprKind::Str(_) => false,
                _ => true,
            };
            let ghost before = self.ctx.diags@;
            self.report(bad, DiagCode::AsmClobberNotString, cs[j].span);
            assert(before + (diag_if(bad, adiag(DiagCode::AsmClobberNotString, cs@[j as int].span))
                + old(self).clobber_diags(cs@.subrange(j + 1, cs@.len() as int))) =~= self.ctx.diags@
                + old(self).clobber_diags(cs@.subrange(j + 1, cs@.len() as int)));
            j = j + 1;
        }
        assert(cs@.subrange(j as int, cs@.len() as int).len() == 0);
        assert(self.ctx.diags@ + Seq::<Diagnostic>::empty() =~= self.ctx.diags@);
    }

    fn check_asm_field(&mut self, f: &FieldInit, names: &AsmFieldNames) -> (is_template: bool)
        requires
            old(self).wf(),
        ensures
            is_template == (f.name == names.template),
            old(self).same_but_diags(*final(self)),
            old(self).ctx.diags@.is_prefix_of(final(self).ctx.diags@),
            old(self).asm_field_diags(*f, *names) matches Some(ds) ==> final(self).ctx.diags@ == old(
                self,
            ).ctx.diags@ + ds,
    {
        let ghost d0 = self.ctx.diags@;
        if f.name == names.template {
            let bad = match &f.value.kind {
                ExprKind::Str(_) => false,
                _ => true,
            };
            self.report(bad, DiagCode::AsmTemplateNotString, f.value.span);
        } else if f.name == names.outputs || f.name == names.inputs {
            match &f.value.kind {
                ExprKind::DataInit { literal: DataLiteral::Struct(regs), .. } => {
                    self.check_asm_regs(regs, f.name == names.outputs);
                },
                _ => {
                    self.report(true, DiagCode::AsmRegsNotStruct, f.value.span);
                },
            }
        } else if f.name == names.clobbers {
            match &f.value.kind {
                ExprKind::DataInit { literal: DataLiteral::Array(cs), .. } => {
                    self.check_asm_clobbers(cs);
                },
                _ => {
                    self.report(true, DiagCode::AsmClobbersNotArray, f.value.span);
                },
            }
        } else if f.name == names.volatile {
            if self.resolve_tv(f.value.ty) == TY_BOOL {
                match self.const_value(&f.value) {
                    Ok(ConstValue::Bool(_)) => {},
                    Ok(_) => {
                        let ghost d1 = self.ctx.diags@;
                        self.report(true, DiagCode::AsmVolatileNotConst, f.value.span);
                        proof {
                            lemma_prefix_append(d1, seq![adiag(DiagCode::AsmVolatileNotConst, f.value.span)]);
                            crate::eval::lemma_prefix_trans(d0, d1, self.ctx.diags@);
                        }
                    },
                    Err(_) => {},
                }
                return false;
            } else {
                assert(d0 + Seq::<Diagnostic>::empty() =~= d0);
            }
        } else {
            self.report(true, DiagCode::AsmUnknownField, f.span);
        }
        proof {
            lemma_prefix_append(d0, old(self).asm_field_diags(*f, *names).unwrap());
        }
        f.name == names.template
    }

    /// Checks an `@asm` call whose configuration fields have been checked, and
    /// gives its type: `void`, or the error type where the call is malformed.
    pub fn check_asm_call(&mut self, args: &Vec<Expr>, span: Span, names: &AsmFieldNames) -> (r: TypeId)
        requires
            old(self).wf(),
        ensures
            r == (if args@.len() == 1 && untyped_struct(args@[0]) {
                TY_VOID
            } else {
                TY_ERROR
            }),
            old(self).same_but_diags(*final(self)),
            old(self).ctx.diags@.is_prefix_of(final(self).ctx.diags@),
            args@.len() != 1 ==> final(self).ctx.diags@ == old(self).ctx.diags@.push(
                adiag(DiagCode::AsmArgCount, span),
            ),
            args@.len() == 1 && !untyped_struct(args@[0]) ==> final(self).ctx.diags@ == old(
                self,
            ).ctx.diags@.push(adiag(DiagCode::AsmArgNotStruct, args@[0].span)),
            config_fields(args@) is Some && old(self).asm_fields_diags(config_fields(args@).unwrap(), *names)
                is Some ==> final(self).ctx.diags@ == old(self).ctx.diags@ + old(self).asm_fields_diags(
                config_fields(args@).unwrap(),
                *names,
            ).unwrap() + diag_if(
                !Self::has_template(config_fields(args@).unwrap(), *names),
                adiag(DiagCode::AsmMissingTemplate, span),
            ),
    {
        if args.len() != 1 {
            self.report(true, DiagCode::AsmArgCount, span);
            proof {
                lemma_prefix_append(old(self).ctx.diags@, seq![adiag(DiagCode::AsmArgCount, span)]);
            }
            return TY_ERROR;
        }
        let fields = match &args[0].kind {
            ExprKind::DataInit { literal: DataLiteral::Struct(fs), typed: false } => fs,
            _ => {
                self.report(true, DiagCode::AsmArgNotStruct, args[0].span);
                proof {
                    lemma_prefix_append(old(self).ctx.diags@, seq![adiag(DiagCode::AsmArgNotStruct, args@[0].span)]);
                }
                return TY_ERROR;
            },
        };
        let ghost fs = fields@;
        let mut has_asm = false;
        let mut j: usize = 0;
        assert(fs.subrange(0, fs.len() as int) =~= fs);
        assert(old(self).ctx.diags@ + Seq::<Diagnostic>::empty() =~= old(self).ctx.diags@);
        while j < fields.len()
            invariant
                self.wf(),
                old(self).wf(),
                fs == fields@,
                j <= fs.len(),
                old(self).same_but_diags(*self),
                old(self).ctx.diags@.is_prefix_of(self.ctx.diags@),
                has_asm == exists|k: int| 0 <= k < j && #[trigger] fs[k].name == names.template,
                old(self).asm_fields_diags(fs, *names) is Some ==> (old(self).asm_fields_diags(
                    fs.subrange(j as int, fs.len() as int),
                    *names,
                ) is Some && old(self).ctx.diags@ + old(self).asm_fields_diags(fs, *names).unwrap()
                    == self.ctx.diags@ + old(self).asm_fields_diags(
                    fs.subrange(j as int, fs.len() as int),
                    *names,
                ).unwrap()),
            decreases fs.len() - j,
        {
            let ghost rest = fs.subrange(j as int, fs.len() as int);
            assert(rest.subrange(1, rest.len() as int) =~= fs.subrange(j + 1, fs.len() as int));
            assert(rest[0] == fs[j as int]);
            let ghost before = self.ctx.diags@;
            let t = self.check_asm_field(&fields[j], names);
            proof {
                crate::eval::lemma_prefix_trans(old(self).ctx.diags@, before, self.ctx.diags@);
                if old(self).asm_fields_diags(fs, *names) is Some {
                    let a = old(self).asm_field_diags(fs[j as int], *names).unwrap();
                    let b = old(self).asm_fields_diags(fs.subrange(j + 1, fs.len() as int), *names).unwrap();
                    assert(before + (a + b) =~= self.ctx.diags@ + b);
                }
            }
            if t {
                has_asm = true;
            }
            j = j + 1;
        }
        let ghost before = self.ctx.diags@;
        self.report(!has_asm, DiagCode::AsmMissingTemplate, span);
        proof {
            lemma_prefix_append(before, diag_if(!has_asm, adiag(DiagCode::AsmMissingTemplate, span)));
            crate::eval::lemma_prefix_trans(old(self).ctx.diags@, before, self.ctx.diags@);
            assert(fs.subrange(j as int, fs.len() as int).len() == 0);
            assert(before + Seq::<Diagnostic>::empty() =~= before);
            assert(has_asm == Self::has_template(fs, *names));
        }
        TY_VOID
    }
}

} // verus!
