//! Checks of the SIMD intrinsics: the shape of their vector, mask and pointer
//! arguments, the constants they take, and the type of the call.
//!
//! Arguments arrive checked: each carries the type the checker gave it.

use vstd::prelude::*;
use crate::types::{TypeId, TypeKind, TypeRegistry, children_below, TY_ERROR, TY_BOOL, TY_USIZE};
use crate::ast::{Expr, Span};
use crate::context::{Diagnostic, DiagCode};
use crate::intrinsic::{SimdIntrinsic, SimdDiag};
use crate::checker::{ExprChecker, diag_if};
use crate::eval_spec::{known_ty, pure_sem, usize_of};
use crate::eval_state::ConstEvalError;
use crate::value::{ConstValue, Values};

verus! {

pub open spec fn sdiag(d: SimdDiag, i: SimdIntrinsic, span: Span) -> Diagnostic {
    Diagnostic { code: DiagCode::Simd(d, i), span }
}

pub open spec fn is_reduce(i: SimdIntrinsic) -> bool {
    i is ReduceAdd || i is ReduceMul || i is ReduceAnd || i is ReduceOr || i is ReduceXor
        || i is ReduceMin || i is ReduceMax
}

pub open spec fn is_pairwise(i: SimdIntrinsic) -> bool {
    i is InterleaveLo || i is InterleaveHi || i is ZipLo || i is ZipHi || i is ConcatLo
        || i is ConcatHi || i is DeinterleaveLo || i is DeinterleaveHi || i is UnzipLo
        || i is UnzipHi
}

pub open spec fn is_rounding(i: SimdIntrinsic) -> bool {
    i is Sqrt || i is Floor || i is Ceil || i is Trunc || i is Round
}

impl ExprChecker {
    /// Lane type and lane count of `t`, where it resolves to a vector.
    pub open spec fn vec_info(self, t: TypeId) -> Option<(TypeId, u16)> {
        self.ctx.types.simd_of(self.resolved(t))
    }

    /// `t` is known and not a vector.
    pub open spec fn not_vector(self, t: TypeId) -> bool {
        self.resolved(t) != TY_ERROR && self.vec_info(t) is None
    }

    /// `t` is known and not a vector of `bool` lanes.
    pub open spec fn not_mask(self, t: TypeId) -> bool {
        self.resolved(t) != TY_ERROR && !(self.vec_info(t) matches Some((e, _)) && e == TY_BOOL)
    }

    pub open spec fn int_or_float(self, t: TypeId) -> bool {
        self.ctx.types.is_int_ty(t) || self.ctx.types.is_float_ty(t)
    }

    /// The first generic argument of a callee type.
    pub open spec fn callee_arg0(self, callee: TypeId) -> TypeId {
        match self.ctx.types.kind(self.ctx.types.norm(known_ty(self.ctx.types, callee))) {
            TypeKind::FnDef(_, args) => if 0 < args@.len() {
                args@[0]
            } else {
                TY_ERROR
            },
            _ => TY_ERROR,
        }
    }

    /// The vector type named by the intrinsic's generic argument, with its
    /// lane type and count.
    pub open spec fn result_vec(self, callee: TypeId) -> Option<(TypeId, TypeId, u16)> {
        let v = self.resolved(self.callee_arg0(callee));
        match self.ctx.types.simd_of(v) {
            Some((e, l)) => Some((v, e, l)),
            None => None,
        }
    }

    pub open spec fn result_vec_diags(self, i: SimdIntrinsic, callee: TypeId, span: Span) -> Seq<
        Diagnostic,
    > {
        let v = self.resolved(self.callee_arg0(callee));
        if self.result_vec(callee) is None {
            seq![
                sdiag(
                    if v == TY_ERROR {
                        SimdDiag::ResultTypeMissing
                    } else {
                        SimdDiag::ResultTypeNotSimd
                    },
                    i,
                    span,
                ),
            ]
        } else {
            Seq::empty()
        }
    }

    /// The problems of a pointer argument meant to address lanes of `elem`.
    pub open spec fn lane_ptr_diags(
        self,
        ptr: TypeId,
        elem: TypeId,
        need_mut: bool,
        i: SimdIntrinsic,
        span: Span,
    ) -> Seq<Diagnostic> {
        match self.kind_of(ptr) {
            TypeKind::Pointer { is_mut, elem: pe } => diag_if(
                need_mut && !is_mut,
                sdiag(SimdDiag::PointerNotMut, i, span),
            ) + diag_if(pe != elem && pe != TY_ERROR, sdiag(SimdDiag::PointerElemMismatch, i, span)),
            TypeKind::Error => Seq::empty(),
            _ => seq![sdiag(SimdDiag::ExpectsPointer, i, span)],
        }
    }

    /// A mask argument: its type and lane count.
    pub open spec fn mask_arg(self, t: TypeId) -> Option<(TypeId, u16)> {
        match self.vec_info(t) {
            Some((e, l)) => if e == TY_BOOL {
                Some((self.resolved(t), l))
            } else {
                None
            },
            None => None,
        }
    }

    pub open spec fn mask_arg_diags(self, t: TypeId, i: SimdIntrinsic, span: Span) -> Seq<Diagnostic> {
        diag_if(self.not_mask(t), sdiag(SimdDiag::ExpectsMask, i, span))
    }

    pub open spec fn index_ptr_diags(self, t: TypeId, i: SimdIntrinsic, span: Span) -> Seq<Diagnostic> {
        match self.kind_of(t) {
            TypeKind::Pointer { elem, .. } => diag_if(
                elem != TY_USIZE && elem != TY_ERROR,
                sdiag(SimdDiag::IndexPtrElem, i, span),
            ),
            TypeKind::Error => Seq::empty(),
            _ => seq![sdiag(SimdDiag::IndexPtrExpected, i, span)],
        }
    }

    /// `half` is a vector of the lanes of `full`, half as many.
    pub open spec fn half_of(self, full: TypeId, half: TypeId) -> bool {
        &&& self.vec_info(full) matches Some((fe, fl))
        &&& self.vec_info(half) matches Some((he, hl))
        &&& fe == he
        &&& fl == 2 * hl
    }

    pub open spec fn half_diags(
        self,
        i: SimdIntrinsic,
        full: TypeId,
        full_span: Span,
        half: TypeId,
        half_span: Span,
    ) -> Seq<Diagnostic> {
        match self.vec_info(full) {
            None => diag_if(
                self.resolved(full) != TY_ERROR,
                sdiag(SimdDiag::ExpectsVector, i, full_span),
            ),
            Some((fe, fl)) => match self.vec_info(half) {
                None => diag_if(
                    self.resolved(half) != TY_ERROR,
                    sdiag(SimdDiag::ExpectsVector, i, half_span),
                ),
                Some((he, hl)) => if fe != he {
                    seq![sdiag(SimdDiag::HalfLaneType, i, half_span)]
                } else if fl != 2 * hl {
                    seq![sdiag(SimdDiag::HalfLaneCount, i, half_span)]
                } else {
                    Seq::empty()
                },
            },
        }
    }

    /// The lane type of a reduction's vector is one the reduction supports.
    pub open spec fn reduce_lanes_ok(self, i: SimdIntrinsic, elem: TypeId) -> bool {
        if i is ReduceAnd || i is ReduceOr || i is ReduceXor {
            self.ctx.types.is_int_ty(elem) || elem == TY_BOOL
        } else {
            self.int_or_float(elem)
        }
    }

    /// The type of a call of the SIMD intrinsic `i`; `default_ret` is the
    /// return type of its signature.
    pub open spec fn simd_result(
        self,
        i: SimdIntrinsic,
        callee: TypeId,
        args: Seq<Expr>,
        default_ret: TypeId,
    ) -> TypeId {
        let t0 = args[0].ty;
        let t1 = args[1].ty;
        let t2 = args[2].ty;
        let t3 = args[3].ty;
        match i {
            SimdIntrinsic::Bitmask => match self.vec_info(t0) {
                Some((e, l)) => if e != TY_BOOL || l > 8 * self.ctx.types.ptr_bytes() {
                    TY_ERROR
                } else {
                    default_ret
                },
                None => TY_ERROR,
            },
            SimdIntrinsic::Splat | SimdIntrinsic::Load | SimdIntrinsic::MaskedLoad
            | SimdIntrinsic::Gather | SimdIntrinsic::MaskedGather => match self.result_vec(callee) {
                Some((v, _, _)) => v,
                None => TY_ERROR,
            },
            SimdIntrinsic::Cast => match self.result_vec(callee) {
                Some((dst, de, dl)) => match self.vec_info(t0) {
                    Some((se, sl)) => if sl != dl || !(self.int_or_float(se) || se == TY_BOOL)
                        || !self.int_or_float(de) {
                        TY_ERROR
                    } else {
                        dst
                    },
                    None => TY_ERROR,
                },
                None => TY_ERROR,
            },
            SimdIntrinsic::Bitcast => match self.result_vec(callee) {
                Some((dst, _, _)) => if self.vec_info(t0) is None || self.ctx.types.size_of(
                    self.resolved(t0),
                ) != self.ctx.types.size_of(dst) {
                    TY_ERROR
                } else {
                    dst
                },
                None => TY_ERROR,
            },
            SimdIntrinsic::Swizzle | SimdIntrinsic::RotateLeft | SimdIntrinsic::RotateRight
            | SimdIntrinsic::Abs | SimdIntrinsic::Sqrt | SimdIntrinsic::Floor | SimdIntrinsic::Ceil
            | SimdIntrinsic::Trunc | SimdIntrinsic::Round => if self.vec_info(t0) is None {
                TY_ERROR
            } else {
                default_ret
            },
            SimdIntrinsic::LowHalf | SimdIntrinsic::HighHalf => match self.result_vec(callee) {
                Some((h, _, _)) => if self.half_of(t0, h) {
                    h
                } else {
                    TY_ERROR
                },
                None => TY_ERROR,
            },
            SimdIntrinsic::WithLowHalf | SimdIntrinsic::WithHighHalf => match self.result_vec(
                callee,
            ) {
                Some((f, _, _)) => if self.half_of(f, t1) {
                    f
                } else {
                    TY_ERROR
                },
                None => TY_ERROR,
            },
            SimdIntrinsic::ReduceAdd | SimdIntrinsic::ReduceMul | SimdIntrinsic::ReduceAnd
            | SimdIntrinsic::ReduceOr | SimdIntrinsic::ReduceXor | SimdIntrinsic::ReduceMin
            | SimdIntrinsic::ReduceMax => match self.vec_info(t0) {
                Some((e, _)) => e,
                None => TY_ERROR,
            },
            _ => default_ret,
        }
    }

    /// The diagnostics a call of `i` reports, for the intrinsics that take no
    /// compile-time constant argument.
    pub open spec fn simd_diags(self, i: SimdIntrinsic, callee: TypeId, args: Seq<Expr>) -> Option<
        Seq<Diagnostic>,
    > {
        let t0 = args[0].ty;
        let t1 = args[1].ty;
        let t2 = args[2].ty;
        let t3 = args[3].ty;
        let s0 = args[0].span;
        let s1 = args[1].span;
        let s2 = args[2].span;
        let s3 = args[3].span;
        let r0 = self.resolved(t0);
        let r1 = self.resolved(t1);
        let r2 = self.resolved(t2);
        let r3 = self.resolved(t3);
        match i {
            SimdIntrinsic::Any | SimdIntrinsic::All => Some(
                diag_if(self.not_mask(t0), sdiag(SimdDiag::ExpectsMask, i, s0)),
            ),
            SimdIntrinsic::Bitmask => Some(
                match self.vec_info(t0) {
                    None => diag_if(r0 != TY_ERROR, sdiag(SimdDiag::ExpectsMask, i, s0)),
                    Some((e, l)) => if e != TY_BOOL {
                        seq![sdiag(SimdDiag::ExpectsMask, i, s0)]
                    } else {
                        diag_if(
                            l > 8 * self.ctx.types.ptr_bytes(),
                            sdiag(SimdDiag::BitmaskTooWide, i, s0),
                        )
                    },
                },
            ),
            SimdIntrinsic::Splat => Some(
                self.result_vec_diags(i, callee, s0) + match self.result_vec(callee) {
                    Some((_, e, _)) => diag_if(
                        r0 != TY_ERROR && r0 != e,
                        sdiag(SimdDiag::ScalarLaneMismatch, i, s0),
                    ),
                    None => Seq::empty(),
                },
            ),
            SimdIntrinsic::Cast => Some(
                self.result_vec_diags(i, callee, s0) + match self.result_vec(callee) {
                    Some((_, de, dl)) => match self.vec_info(t0) {
                        None => diag_if(r0 != TY_ERROR, sdiag(SimdDiag::ExpectsVector, i, s0)),
                        Some((se, sl)) => if sl != dl {
                            seq![sdiag(SimdDiag::LaneCountMismatch, i, s0)]
                        } else {
                            diag_if(
                                !(self.int_or_float(se) || se == TY_BOOL) || !self.int_or_float(de),
                                sdiag(SimdDiag::CastNotNumeric, i, s0),
                            )
                        },
                    },
                    None => Seq::empty(),
                },
            ),
            SimdIntrinsic::Bitcast => Some(
                self.result_vec_diags(i, callee, s0) + match self.result_vec(callee) {
                    Some((dst, _, _)) => if self.vec_info(t0) is None {
                        diag_if(r0 != TY_ERROR, sdiag(SimdDiag::ExpectsVector, i, s0))
                    } else {
                        diag_if(
                            self.ctx.types.size_of(r0) != self.ctx.types.size_of(dst),
                            sdiag(SimdDiag::BitcastSizeMismatch, i, s0),
                        )
                    },
                    None => Seq::empty(),
                },
            ),
            SimdIntrinsic::Select => Some(
                diag_if(self.not_mask(t0), sdiag(SimdDiag::ExpectsMask, i, s0)) + diag_if(
                    self.not_vector(t1),
                    sdiag(SimdDiag::ExpectsVector, i, s1),
                ) + diag_if(self.not_vector(t2), sdiag(SimdDiag::ExpectsVector, i, s2)) + diag_if(
                    r1 != TY_ERROR && r2 != TY_ERROR && r1 != r2,
                    sdiag(SimdDiag::TypeMismatch, i, s2),
                ) + diag_if(
                    self.vec_info(t0) is Some && self.vec_info(t1) is Some && self.vec_info(
                        t0,
                    ).unwrap().1 != self.vec_info(t1).unwrap().1,
                    sdiag(SimdDiag::MaskLaneMismatch, i, s0),
                ),
            ),
            SimdIntrinsic::Reverse => Some(
                diag_if(self.not_vector(t0), sdiag(SimdDiag::ExpectsVector, i, s0)),
            ),
            SimdIntrinsic::InterleaveLo | SimdIntrinsic::InterleaveHi | SimdIntrinsic::ZipLo
            | SimdIntrinsic::ZipHi | SimdIntrinsic::ConcatLo | SimdIntrinsic::ConcatHi
            | SimdIntrinsic::DeinterleaveLo | SimdIntrinsic::DeinterleaveHi
            | SimdIntrinsic::UnzipLo | SimdIntrinsic::UnzipHi => Some(
                diag_if(self.not_vector(t0), sdiag(SimdDiag::ExpectsVector, i, s0)) + diag_if(
                    self.not_vector(t1),
                    sdiag(SimdDiag::ExpectsVector, i, s1),
                ) + diag_if(
                    r0 != TY_ERROR && r1 != TY_ERROR && r0 != r1,
                    sdiag(SimdDiag::TypeMismatch, i, s1),
                ) + diag_if(
                    self.vec_info(t0) is Some && self.vec_info(t0).unwrap().1 % 2 != 0,
                    sdiag(SimdDiag::OddLaneCount, i, s0),
                ),
            ),
            SimdIntrinsic::LowHalf | SimdIntrinsic::HighHalf => Some(
                self.result_vec_diags(i, callee, s0) + match self.result_vec(callee) {
                    Some((h, _, _)) => self.half_diags(i, t0, s0, h, s0),
                    None => Seq::empty(),
                },
            ),
            SimdIntrinsic::WithLowHalf | SimdIntrinsic::WithHighHalf => Some(
                self.result_vec_diags(i, callee, s0) + match self.result_vec(callee) {
                    Some((f, _, _)) => diag_if(
                        r0 != TY_ERROR && r0 != f,
                        sdiag(SimdDiag::BaseMismatch, i, s0),
                    ) + self.half_diags(i, f, s0, t1, s1),
                    None => Seq::empty(),
                },
            ),
            SimdIntrinsic::ReduceAdd | SimdIntrinsic::ReduceMul | SimdIntrinsic::ReduceAnd
            | SimdIntrinsic::ReduceOr | SimdIntrinsic::ReduceXor | SimdIntrinsic::ReduceMin
            | SimdIntrinsic::ReduceMax => Some(
                match self.vec_info(t0) {
                    None => diag_if(r0 != TY_ERROR, sdiag(SimdDiag::ExpectsVector, i, s0)),
                    Some((e, _)) => diag_if(
                        !self.reduce_lanes_ok(i, e),
                        sdiag(SimdDiag::LaneKind, i, s0),
                    ),
                },
            ),
            SimdIntrinsic::Abs => Some(
                match self.vec_info(t0) {
                    None => diag_if(r0 != TY_ERROR, sdiag(SimdDiag::ExpectsVector, i, s0)),
                    Some((e, _)) => diag_if(
                        !self.signed_int(e) && !self.ctx.types.is_float_ty(e),
                        sdiag(SimdDiag::LaneKind, i, s0),
                    ),
                },
            ),
            SimdIntrinsic::Sqrt | SimdIntrinsic::Floor | SimdIntrinsic::Ceil | SimdIntrinsic::Trunc
            | SimdIntrinsic::Round => Some(
                match self.vec_info(t0) {
                    None => diag_if(r0 != TY_ERROR, sdiag(SimdDiag::ExpectsVector, i, s0)),
                    Some((e, _)) => diag_if(
                        !self.ctx.types.is_float_ty(e),
                        sdiag(SimdDiag::LaneKind, i, s0),
                    ),
                },
            ),
            SimdIntrinsic::Min | SimdIntrinsic::Max => Some(
                diag_if(self.not_vector(t0), sdiag(SimdDiag::ExpectsVector, i, s0)) + diag_if(
                    self.not_vector(t1),
                    sdiag(SimdDiag::ExpectsVector, i, s1),
                ) + diag_if(
                    r0 != TY_ERROR && r1 != TY_ERROR && r0 != r1,
                    sdiag(SimdDiag::TypeMismatch, i, s1),
                ) + diag_if(
                    self.vec_info(t0) is Some && !self.int_or_float(self.vec_info(t0).unwrap().0),
                    sdiag(SimdDiag::LaneKind, i, s0),
                ),
            ),
            SimdIntrinsic::Clamp => Some(
                diag_if(self.not_vector(t0), sdiag(SimdDiag::ExpectsVector, i, s0)) + diag_if(
                    self.not_vector(t1),
                    sdiag(SimdDiag::ExpectsVector, i, s1),
                ) + diag_if(self.not_vector(t2), sdiag(SimdDiag::ExpectsVector, i, s2)) + diag_if(
                    r0 != TY_ERROR && r1 != TY_ERROR && r0 != r1,
                    sdiag(SimdDiag::TypeMismatch, i, s1),
                ) + diag_if(
                    r0 != TY_ERROR && r2 != TY_ERROR && r0 != r2,
                    sdiag(SimdDiag::TypeMismatch, i, s2),
                ) + diag_if(
                    self.vec_info(t0) is Some && !self.int_or_float(self.vec_info(t0).unwrap().0),
                    sdiag(SimdDiag::LaneKind, i, s0),
                ),
            ),
            SimdIntrinsic::Gather => Some(
                self.index_ptr_diags(t1, i, s1) + self.result_vec_diags(i, callee, s0) + match self.result_vec(
                    callee,
                ) {
                    Some((_, e, _)) => self.lane_ptr_diags(t0, e, false, i, s0),
                    None => Seq::empty(),
                },
            ),
            SimdIntrinsic::Scatter => Some(
                self.index_ptr_diags(t1, i, s1) + match self.vec_info(t2) {
                    None => diag_if(r2 != TY_ERROR, sdiag(SimdDiag::ExpectsVector, i, s2)),
                    Some((e, _)) => self.lane_ptr_diags(t0, e, true, i, s0),
                },
            ),
            SimdIntrinsic::MaskedGather => Some(
                self.index_ptr_diags(t1, i, s1) + self.mask_arg_diags(t2, i, s2)
                    + self.result_vec_diags(i, callee, s0) + match self.result_vec(callee) {
                    Some((v, e, l)) => diag_if(
                        r3 != TY_ERROR && r3 != v,
                        sdiag(SimdDiag::FallbackMismatch, i, s3),
                    ) + diag_if(
                        self.mask_arg(t2) is Some && self.mask_arg(t2).unwrap().1 != l,
                        sdiag(SimdDiag::MaskLaneMismatch, i, s2),
                    ) + self.lane_ptr_diags(t0, e, false, i, s0),
                    None => Seq::empty(),
                },
            ),
            SimdIntrinsic::MaskedScatter => Some(
                self.index_ptr_diags(t1, i, s1) + self.mask_arg_diags(t2, i, s2) + match self.vec_info(
                    t3,
                ) {
                    None => diag_if(r3 != TY_ERROR, sdiag(SimdDiag::ExpectsVector, i, s3)),
                    Some((e, l)) => diag_if(
                        self.mask_arg(t2) is Some && self.mask_arg(t2).unwrap().1 != l,
                        sdiag(SimdDiag::MaskLaneMismatch, i, s2),
                    ) + self.lane_ptr_diags(t0, e, true, i, s0),
                },
            ),
            _ => None,
        }
    }

    /// The diagnostics a store reports last, once its alignment is checked:
    /// the value must be a vector, a masked store's mask must have its lane
    /// count, and the destination must be a mutable pointer to its lanes.
    pub open spec fn store_tail(self, i: SimdIntrinsic, args: Seq<Expr>) -> Seq<Diagnostic> {
        let vi: int = if i is MaskedStore {
            2
        } else {
            1
        };
        let t = args[vi].ty;
        match self.vec_info(t) {
            None => diag_if(self.resolved(t) != TY_ERROR, sdiag(SimdDiag::ExpectsVector, i, args[vi].span)),
            Some((e, l)) => (if i is MaskedStore {
                match self.mask_arg(args[1].ty) {
                    Some((_, ml)) => diag_if(ml != l, sdiag(SimdDiag::MaskLaneMismatch, i, args[1].span)),
                    None => Seq::empty(),
                }
            } else {
                Seq::empty()
            }) + self.lane_ptr_diags(args[0].ty, e, true, i, args[0].span),
        }
    }

    pub open spec fn signed_int(self, t: TypeId) -> bool {
        let r = self.resolved(t);
        r == crate::types::TY_I8 || r == crate::types::TY_I16 || r == crate::types::TY_I32 || r
            == crate::types::TY_I64 || r == crate::types::TY_I128 || r == crate::types::TY_ISIZE
    }
}


/// `b` is how `a` ends.
pub open spec fn ends_with<T>(a: Seq<T>, b: Seq<T>) -> bool {
    b.len() <= a.len() && a.subrange(a.len() - b.len(), a.len() as int) == b
}

pub proof fn lemma_prefix_append<T>(a: Seq<T>, b: Seq<T>)
    ensures
        a.is_prefix_of(a + b),
{
    assert(a =~= (a + b).subrange(0, a.len() as int));
}

/// A power of two.
pub open spec fn power_of_two(n: nat) -> bool
    decreases n,
{
    if n == 1 {
        true
    } else if n < 2 || n % 2 != 0 {
        false
    } else {
        power_of_two(n / 2)
    }
}

pub fn is_power_of_two(n: u64) -> (r: bool)
    ensures
        r == power_of_two(n as nat),
{
    let mut m = n;
    while m >= 2 && m % 2 == 0
        invariant
            power_of_two(m as nat) == power_of_two(n as nat),
        decreases m,
    {
        m = m / 2;
    }
    m == 1
}

impl ExprChecker {
    /// What a check of the SIMD intrinsic `i` guarantees: its result type,
    /// the diagnostics it reports where they do not depend on a constant's
    /// evaluation, and that it changes nothing else.
    pub open spec fn simd_done(
        self,
        after: Self,
        i: SimdIntrinsic,
        callee: TypeId,
        args: Seq<Expr>,
        default_ret: TypeId,
        r: TypeId,
    ) -> bool {
        &&& r == self.simd_result(i, callee, args, default_ret)
        &&& self.same_but_diags(after)
        &&& self.ctx.diags@.is_prefix_of(after.ctx.diags@)
        &&& (self.simd_diags(i, callee, args) matches Some(ds) ==> after.ctx.diags@ == self.ctx.diags@
            + ds)
    }

    /// The vector type named by the intrinsic's generic argument, with its lane
    /// type and count; reported where there is none.
    pub fn resolve_simd_intrinsic_result_type(&mut self, i: SimdIntrinsic, callee: TypeId, span: Span) -> (r:
        Option<(TypeId, TypeId, u16)>)
        requires
            old(self).wf(),
        ensures
            r == old(self).result_vec(callee),
            r matches Some((v, e, _)) ==> old(self).ctx.types.valid(v) && old(self).ctx.types.valid(e),
            final(self).ctx.diags@ == old(self).ctx.diags@ + old(self).result_vec_diags(i, callee, span),
            old(self).same_but_diags(*final(self)),
    {
        let value_ty = match self.intrinsic_generic_arg(callee, 0) {
            Some(t) => t,
            None => TY_ERROR,
        };
        let norm = self.resolve_tv(value_ty);
        match self.ctx.types.simd_info(norm) {
            Some((e, l)) => {
                assert(children_below(self.ctx.types.kinds()[norm as int], norm as int));
                assert(old(self).result_vec_diags(i, callee, span) =~= Seq::empty());
                Some((norm, e, l))
            },
            None => {
                let d = if norm == TY_ERROR {
                    SimdDiag::ResultTypeMissing
                } else {
                    SimdDiag::ResultTypeNotSimd
                };
                self.report(true, DiagCode::Simd(d, i), span);
                None
            },
        }
    }

    /// A mask argument: its type and lane count; reported where it is not one.
    pub fn check_simd_mask_arg(&mut self, arg: &Expr, i: SimdIntrinsic) -> (r: Option<(TypeId, u16)>)
        requires
            old(self).wf(),
        ensures
            r == old(self).mask_arg(arg.ty),
            final(self).ctx.diags@ == old(self).ctx.diags@ + old(self).mask_arg_diags(arg.ty, i, arg.span),
            old(self).same_but_diags(*final(self)),
    {
        let norm = self.resolve_tv(arg.ty);
        match self.ctx.types.simd_info(norm) {
            Some((e, l)) => {
                if e != TY_BOOL {
                    self.report(true, DiagCode::Simd(SimdDiag::ExpectsMask, i), arg.span);
                    None
                } else {
                    self.report(false, DiagCode::Simd(SimdDiag::ExpectsMask, i), arg.span);
                    Some((norm, l))
                }
            },
            None => {
                self.report(norm != TY_ERROR, DiagCode::Simd(SimdDiag::ExpectsMask, i), arg.span);
                None
            },
        }
    }

    /// Reports a mask whose lane count differs from the value's.
    pub fn check_simd_mask_lane_match(&mut self, arg: &Expr, i: SimdIntrinsic, mask_lanes: u16, value_lanes: u16)
        ensures
            final(self).ctx.diags@ == old(self).ctx.diags@ + diag_if(
                mask_lanes != value_lanes,
                sdiag(SimdDiag::MaskLaneMismatch, i, arg.span),
            ),
            old(self).same_but_diags(*final(self)),
    {
        self.report(mask_lanes != value_lanes, DiagCode::Simd(SimdDiag::MaskLaneMismatch, i), arg.span);
    }

    /// A pointer to `usize` lane indices.
    pub fn check_simd_index_ptr_arg(&mut self, arg: &Expr, i: SimdIntrinsic) -> (r: Option<TypeId>)
        requires
            old(self).wf(),
        ensures
            r == Some(old(self).resolved(arg.ty)),
            final(self).ctx.diags@ == old(self).ctx.diags@ + old(self).index_ptr_diags(arg.ty, i, arg.span),
            old(self).same_but_diags(*final(self)),
    {
        let norm = self.resolve_tv(arg.ty);
        match self.ctx.types.get(norm) {
            TypeKind::Pointer { elem, .. } => {
                let bad = *elem != TY_USIZE && *elem != TY_ERROR;
                self.report(bad, DiagCode::Simd(SimdDiag::IndexPtrElem, i), arg.span);
            },
            TypeKind::Error => {
                self.report(false, DiagCode::Simd(SimdDiag::IndexPtrExpected, i), arg.span);
            },
            _ => {
                self.report(true, DiagCode::Simd(SimdDiag::IndexPtrExpected, i), arg.span);
            },
        }
        Some(norm)
    }

    /// A pointer through which lanes of `elem` are read (or written, with
    /// `need_mut`).
    pub fn check_simd_lane_pointer(
        &mut self,
        ptr: TypeId,
        elem: TypeId,
        need_mut: bool,
        i: SimdIntrinsic,
        span: Span,
    )
        requires
            old(self).wf(),
        ensures
            final(self).ctx.diags@ == old(self).ctx.diags@ + old(self).lane_ptr_diags(
                ptr,
                elem,
                need_mut,
                i,
                span,
            ),
            old(self).same_but_diags(*final(self)),
    {
        let norm = self.resolve_tv(ptr);
        match self.ctx.types.get(norm) {
            TypeKind::Pointer { is_mut, elem: pe } => {
                let not_mut = need_mut && !*is_mut;
                let pe = *pe;
                self.report(not_mut, DiagCode::Simd(SimdDiag::PointerNotMut, i), span);
                self.report(
                    pe != elem && pe != TY_ERROR,
                    DiagCode::Simd(SimdDiag::PointerElemMismatch, i),
                    span,
                );
                assert(self.ctx.diags@ =~= old(self).ctx.diags@ + old(self).lane_ptr_diags(
                    ptr,
                    elem,
                    need_mut,
                    i,
                    span,
                ));
            },
            TypeKind::Error => {
                self.report(false, DiagCode::Simd(SimdDiag::ExpectsPointer, i), span);
            },
            _ => {
                self.report(true, DiagCode::Simd(SimdDiag::ExpectsPointer, i), span);
            },
        }
    }

    /// `half` holds the lanes of `full`, half as many.
    pub fn check_simd_half_relation(
        &mut self,
        i: SimdIntrinsic,
        full: TypeId,
        full_span: Span,
        half: TypeId,
        half_span: Span,
    ) -> (r: bool)
        requires
            old(self).wf(),
        ensures
            r == old(self).half_of(full, half),
            final(self).ctx.diags@ == old(self).ctx.diags@ + old(self).half_diags(
                i,
                full,
                full_span,
                half,
                half_span,
            ),
            old(self).same_but_diags(*final(self)),
    {
        let nf = self.resolve_tv(full);
        let (fe, fl) = match self.ctx.types.simd_info(nf) {
            Some(x) => x,
            None => {
                self.report(nf != TY_ERROR, DiagCode::Simd(SimdDiag::ExpectsVector, i), full_span);
                return false;
            },
        };
        let nh = self.resolve_tv(half);
        let (he, hl) = match self.ctx.types.simd_info(nh) {
            Some(x) => x,
            None => {
                self.report(nh != TY_ERROR, DiagCode::Simd(SimdDiag::ExpectsVector, i), half_span);
                return false;
            },
        };
        if fe != he {
            self.report(true, DiagCode::Simd(SimdDiag::HalfLaneType, i), half_span);
            return false;
        }
        if fl as u32 != 2 * (hl as u32) {
            self.report(true, DiagCode::Simd(SimdDiag::HalfLaneCount, i), half_span);
            return false;
        }
        assert(old(self).half_diags(i, full, full_span, half, half_span) =~= Seq::empty());
        true
    }
}

/// An alignment given as a constant: a power of two that fits in 32 bits.
pub open spec fn align_of_const(r: Result<u64, ConstEvalError>) -> Option<u64> {
    match r {
        Ok(a) => if !power_of_two(a as nat) || a > u32::MAX {
            None
        } else {
            Some(a)
        },
        Err(_) => None,
    }
}

/// A rotation amount given as a constant, reduced modulo the lane count.
pub open spec fn rotate_of_const(r: Result<u64, ConstEvalError>, lanes: u16) -> Option<u32> {
    match r {
        Ok(a) => Some((a % (lanes as u64)) as u32),
        Err(_) => None,
    }
}

/// Lane indices given as a constant: an array of `lanes` integers, each below
/// `upper`.
pub open spec fn indices_of_const(r: Result<ConstValue, ConstEvalError>, lanes: u16, upper: u32) -> Option<
    Seq<u32>,
> {
    match r {
        Ok(ConstValue::Array(vs)) => {
            let s = vs.seq();
            if s.len() == lanes && forall|j: int|
                0 <= j < s.len() ==> (#[trigger] s[j] matches ConstValue::Int(x) && 0 <= x
                    < upper) {
                Some(Seq::new(s.len(), |j: int| (s[j]->Int_0) as u32))
            } else {
                None
            }
        },
        _ => None,
    }
}

/// Number of values in a list, counting at most `cap + 1` of them.
fn count_values(vs: &Values, cap: u64) -> (n: u64)
    requires
        cap < u64::MAX,
    ensures
        n <= cap + 1,
        n <= cap ==> n == vs.seq().len(),
        n == cap + 1 ==> vs.seq().len() > cap,
{
    let mut cur = vs;
    let mut n: u64 = 0;
    while n <= cap
        invariant
            n <= cap + 1,
            cap < u64::MAX,
            n + cur.seq().len() == vs.seq().len(),
        decreases cur.seq().len(),
    {
        match cur {
            Values::Nil => {
                return n;
            },
            Values::Cons(_, t) => {
                cur = &**t;
                n = n + 1;
            },
        }
    }
    n
}

impl ExprChecker {
    /// The alignment argument of a load or store: a constant power of two of
    /// at most 32 bits.
    pub fn eval_simd_align_arg(&mut self, arg: &Expr, i: SimdIntrinsic) -> (r: Option<u64>)
        requires
            old(self).wf(),
        ensures
            arg.ty == TY_ERROR ==> r is None && *final(self) == *old(self),
            arg.ty != TY_ERROR ==> (pure_sem(old(self).ctx.types, Seq::empty(), *arg, 0) matches Some(
                res,
            ) ==> r == align_of_const(usize_of(res))),
            old(self).same_but_diags(*final(self)),
            old(self).ctx.diags@.is_prefix_of(final(self).ctx.diags@),
    {
        if arg.ty == TY_ERROR {
            return None;
        }
        let align = match self.const_usize(arg) {
            Ok(a) => a,
            Err(_) => {
                let ghost mid = self.ctx.diags@;
                self.report(true, DiagCode::Simd(SimdDiag::AlignNotConst, i), arg.span);
                proof {
                    lemma_prefix_append(mid, self.ctx.diags@.subrange(mid.len() as int, self.ctx.diags@.len() as int));
                    assert(mid + self.ctx.diags@.subrange(mid.len() as int, self.ctx.diags@.len() as int) =~= self.ctx.diags@);
                    crate::eval::lemma_prefix_trans(old(self).ctx.diags@, mid, self.ctx.diags@);
                }
                return None;
            },
        };
        let ghost mid = self.ctx.diags@;
        let bad_pow2 = !is_power_of_two(align);
        let too_large = align > 0xffff_ffffu64;
        if bad_pow2 {
            self.report(true, DiagCode::Simd(SimdDiag::AlignNotPow2, i), arg.span);
        } else if too_large {
            self.report(true, DiagCode::Simd(SimdDiag::AlignTooLarge, i), arg.span);
        }
        proof {
            lemma_prefix_append(mid, self.ctx.diags@.subrange(mid.len() as int, self.ctx.diags@.len() as int));
            assert(mid + self.ctx.diags@.subrange(mid.len() as int, self.ctx.diags@.len() as int) =~= self.ctx.diags@);
            crate::eval::lemma_prefix_trans(old(self).ctx.diags@, mid, self.ctx.diags@);
        }
        if bad_pow2 || too_large {
            None
        } else {
            Some(align)
        }
    }

    /// The rotation amount of a lane rotation, a constant, modulo `lanes`.
    pub fn eval_simd_rotate_amount(&mut self, arg: &Expr, i: SimdIntrinsic, lanes: u16) -> (r: Option<u32>)
        requires
            old(self).wf(),
            lanes > 0,
        ensures
            arg.ty == TY_ERROR ==> r is None && *final(self) == *old(self),
            arg.ty != TY_ERROR ==> (pure_sem(old(self).ctx.types, Seq::empty(), *arg, 0) matches Some(
                res,
            ) ==> r == rotate_of_const(usize_of(res), lanes)),
            old(self).same_but_diags(*final(self)),
            old(self).ctx.diags@.is_prefix_of(final(self).ctx.diags@),
    {
        if arg.ty == TY_ERROR {
            return None;
        }
        match self.const_usize(arg) {
            Ok(a) => Some((a % (lanes as u64)) as u32),
            Err(_) => {
                let ghost mid = self.ctx.diags@;
                self.report(true, DiagCode::Simd(SimdDiag::AmountNotConst, i), arg.span);
                proof {
                    lemma_prefix_append(mid, self.ctx.diags@.subrange(mid.len() as int, self.ctx.diags@.len() as int));
                    assert(mid + self.ctx.diags@.subrange(mid.len() as int, self.ctx.diags@.len() as int) =~= self.ctx.diags@);
                    crate::eval::lemma_prefix_trans(old(self).ctx.diags@, mid, self.ctx.diags@);
                }
                None
            },
        }
    }

    /// Lane indices: a constant array of `lanes` integers, each below `upper`.
    pub fn eval_simd_lane_indices(&mut self, arg: &Expr, i: SimdIntrinsic, lanes: u16, upper: u32) -> (r:
        Option<Vec<u32>>)
        requires
            old(self).wf(),
        ensures
            pure_sem(old(self).ctx.types, Seq::empty(), *arg, 0) matches Some(res) ==> (match indices_of_const(
                res,
                lanes,
                upper,
            ) {
                Some(ix) => r matches Some(v) && v@ == ix,
                None => r is None,
            }),
            old(self).same_but_diags(*final(self)),
            old(self).ctx.diags@.is_prefix_of(final(self).ctx.diags@),
    {
        let value = self.const_value(arg);
        let ghost mid = self.ctx.diags@;
        let r = self.lane_indices_from(value, arg.span, i, lanes, upper);
        proof {
            crate::eval::lemma_prefix_trans(old(self).ctx.diags@, mid, self.ctx.diags@);
        }
        r
    }

    fn lane_indices_from(
        &mut self,
        value: Result<ConstValue, ConstEvalError>,
        span: Span,
        i: SimdIntrinsic,
        lanes: u16,
        upper: u32,
    ) -> (r: Option<Vec<u32>>)
        ensures
            match indices_of_const(value, lanes, upper) {
                Some(ix) => r matches Some(v) && v@ == ix,
                None => r is None,
            },
            old(self).same_but_diags(*final(self)),
            old(self).ctx.diags@.is_prefix_of(final(self).ctx.diags@),
    {
        let ghost gv = value;
        let vals = match value {
            Ok(ConstValue::Array(vs)) => vs,
            Ok(_) => {
                self.report(true, DiagCode::Simd(SimdDiag::IndicesNotArray, i), span);
                proof { lemma_prefix_append(old(self).ctx.diags@, self.ctx.diags@.subrange(old(self).ctx.diags@.len() as int, self.ctx.diags@.len() as int)); assert(old(self).ctx.diags@ + self.ctx.diags@.subrange(old(self).ctx.diags@.len() as int, self.ctx.diags@.len() as int) =~= self.ctx.diags@); }
                return None;
            },
            Err(_) => {
                proof { lemma_prefix_append(old(self).ctx.diags@, Seq::empty()); assert(old(self).ctx.diags@ + Seq::empty() =~= old(self).ctx.diags@); }
                return None;
            },
        };
        let ghost s = vals.seq();
        let n = count_values(&vals, lanes as u64);
        if n != lanes as u64 {
            self.report(true, DiagCode::Simd(SimdDiag::IndexCountMismatch, i), span);
            proof { lemma_prefix_append(old(self).ctx.diags@, self.ctx.diags@.subrange(old(self).ctx.diags@.len() as int, self.ctx.diags@.len() as int)); assert(old(self).ctx.diags@ + self.ctx.diags@.subrange(old(self).ctx.diags@.len() as int, self.ctx.diags@.len() as int) =~= self.ctx.diags@); }
            return None;
        }
        let mut out: Vec<u32> = Vec::new();
        let mut cur = &vals;
        let mut k: usize = 0;
        while k < lanes as usize
            invariant
                s == vals.seq(),
                s.len() == lanes,
                k <= lanes,
                cur.seq() == s.skip(k as int),
                out@.len() == k,
                forall|j: int| 0 <= j < k ==> (#[trigger] s[j] matches ConstValue::Int(x) && 0 <= x < upper
                    && out@[j] == x as u32),
                *self == *old(self),
                gv matches Ok(ConstValue::Array(vs)) && vs.seq() == s,
                gv == value,
            decreases lanes - k,
        {
            match cur {
                Values::Cons(h, t) => {
                    assert(cur.seq()[0] == s[k as int]);
                    match &**h {
                        ConstValue::Int(x) => {
                            if *x < 0 || *x >= upper as i128 {
                                assert(!(s[k as int] matches ConstValue::Int(y) && 0 <= y < upper));
                                self.report(true, DiagCode::Simd(SimdDiag::IndexOutOfRange, i), span);
                                proof { lemma_prefix_append(old(self).ctx.diags@, self.ctx.diags@.subrange(old(self).ctx.diags@.len() as int, self.ctx.diags@.len() as int)); assert(old(self).ctx.diags@ + self.ctx.diags@.subrange(old(self).ctx.diags@.len() as int, self.ctx.diags@.len() as int) =~= self.ctx.diags@); }
                                return None;
                            }
                            out.push(*x as u32);
                        },
                        _ => {
                            assert(!(s[k as int] matches ConstValue::Int(y) && 0 <= y < upper));
                            self.report(true, DiagCode::Simd(SimdDiag::IndicesNotInt, i), span);
                            proof { lemma_prefix_append(old(self).ctx.diags@, self.ctx.diags@.subrange(old(self).ctx.diags@.len() as int, self.ctx.diags@.len() as int)); assert(old(self).ctx.diags@ + self.ctx.diags@.subrange(old(self).ctx.diags@.len() as int, self.ctx.diags@.len() as int) =~= self.ctx.diags@); }
                            return None;
                        },
                    }
                    assert(t.seq() =~= s.skip(k + 1)) by {
                        assert(cur.seq().drop_first() =~= t.seq());
                        assert(s.skip(k + 1) =~= s.skip(k as int).drop_first());
                    }
                    cur = &**t;
                },
                Values::Nil => {
                    assert(false);
                },
            }
            k = k + 1;
        }
        proof {
            assert(out@ =~= Seq::new(s.len(), |j: int| (s[j]->Int_0) as u32));
            lemma_prefix_append(old(self).ctx.diags@, Seq::empty());
            assert(old(self).ctx.diags@ + Seq::empty() =~= old(self).ctx.diags@);
        }
        Some(out)
    }

    /// Shuffle indices pick from the lanes of both inputs, `[0, 2 * lanes)`.
    pub fn eval_simd_shuffle_indices(&mut self, arg: &Expr, lanes: u16) -> (r: Option<Vec<u32>>)
        requires
            old(self).wf(),
        ensures
            pure_sem(old(self).ctx.types, Seq::empty(), *arg, 0) matches Some(res) ==> (match indices_of_const(
                res,
                lanes,
                (2 * lanes) as u32,
            ) {
                Some(ix) => r matches Some(v) && v@ == ix,
                None => r is None,
            }),
            old(self).same_but_diags(*final(self)),
            old(self).ctx.diags@.is_prefix_of(final(self).ctx.diags@),
    {
        self.eval_simd_lane_indices(arg, SimdIntrinsic::Shuffle, lanes, (lanes as u32) * 2)
    }

    /// Swizzle indices pick from the lanes of the input, `[0, lanes)`.
    pub fn eval_simd_swizzle_indices(&mut self, arg: &Expr, lanes: u16) -> (r: Option<Vec<u32>>)
        requires
            old(self).wf(),
        ensures
            pure_sem(old(self).ctx.types, Seq::empty(), *arg, 0) matches Some(res) ==> (match indices_of_const(
                res,
                lanes,
                lanes as u32,
            ) {
                Some(ix) => r matches Some(v) && v@ == ix,
                None => r is None,
            }),
            old(self).same_but_diags(*final(self)),
            old(self).ctx.diags@.is_prefix_of(final(self).ctx.diags@),
    {
        self.eval_simd_lane_indices(arg, SimdIntrinsic::Swizzle, lanes, lanes as u32)
    }
}

impl ExprChecker {
    fn simd_mask_test(&mut self, i: SimdIntrinsic, callee: TypeId, args: &Vec<Expr>, default_ret: TypeId) -> (r:
        TypeId)
        requires
            old(self).wf(),
            i is Any || i is All,
            args@.len() >= 1,
        ensures
            old(self).simd_done(*final(self), i, callee, args@, default_ret, r),
    {
        let m = self.resolve_tv(args[0].ty);
        let is_mask = self.ctx.types.is_simd_mask(m);
        self.report(m != TY_ERROR && !is_mask, DiagCode::Simd(SimdDiag::ExpectsMask, i), args[0].span);
        proof {
            lemma_prefix_append(old(self).ctx.diags@, old(self).simd_diags(i, callee, args@).unwrap());
        }
        default_ret
    }

    fn simd_bitmask(&mut self, i: SimdIntrinsic, callee: TypeId, args: &Vec<Expr>, default_ret: TypeId) -> (r:
        TypeId)
        requires
            old(self).wf(),
            i is Bitmask,
            args@.len() >= 1,
        ensures
            old(self).simd_done(*final(self), i, callee, args@, default_ret, r),
    {
        proof {
            lemma_prefix_append(old(self).ctx.diags@, old(self).simd_diags(i, callee, args@).unwrap());
        }
        let m = self.resolve_tv(args[0].ty);
        let (e, lanes) = match self.ctx.types.simd_info(m) {
            Some(x) => x,
            None => {
                self.report(m != TY_ERROR, DiagCode::Simd(SimdDiag::ExpectsMask, i), args[0].span);
                return TY_ERROR;
            },
        };
        if e != TY_BOOL {
            self.report(true, DiagCode::Simd(SimdDiag::ExpectsMask, i), args[0].span);
            return TY_ERROR;
        }
        let usize_bits = self.ctx.types.pointer_size() * 8;
        if lanes as u64 > usize_bits {
            self.report(true, DiagCode::Simd(SimdDiag::BitmaskTooWide, i), args[0].span);
            return TY_ERROR;
        }
        self.report(false, DiagCode::Simd(SimdDiag::BitmaskTooWide, i), args[0].span);
        default_ret
    }

    fn simd_splat(&mut self, i: SimdIntrinsic, callee: TypeId, args: &Vec<Expr>, default_ret: TypeId) -> (r:
        TypeId)
        requires
            old(self).wf(),
            i is Splat,
            args@.len() >= 1,
        ensures
            old(self).simd_done(*final(self), i, callee, args@, default_ret, r),
    {
        proof {
            lemma_prefix_append(old(self).ctx.diags@, old(self).simd_diags(i, callee, args@).unwrap());
        }
        let (v, e, _) = match self.resolve_simd_intrinsic_result_type(i, callee, args[0].span) {
            Some(x) => x,
            None => {
                assert(self.ctx.diags@ =~= old(self).ctx.diags@ + old(self).simd_diags(i, callee, args@).unwrap());
                return TY_ERROR;
            },
        };
        let sc = self.resolve_tv(args[0].ty);
        self.report(sc != TY_ERROR && sc != e, DiagCode::Simd(SimdDiag::ScalarLaneMismatch, i), args[0].span);
        assert(self.ctx.diags@ =~= old(self).ctx.diags@ + old(self).simd_diags(i, callee, args@).unwrap());
        v
    }

    fn simd_cast(&mut self, i: SimdIntrinsic, callee: TypeId, args: &Vec<Expr>, default_ret: TypeId) -> (r:
        TypeId)
        requires
            old(self).wf(),
            i is Cast,
            args@.len() >= 1,
        ensures
            old(self).simd_done(*final(self), i, callee, args@, default_ret, r),
    {
        proof {
            lemma_prefix_append(old(self).ctx.diags@, old(self).simd_diags(i, callee, args@).unwrap());
        }
        let src = self.resolve_tv(args[0].ty);
        let (dst, de, dl) = match self.resolve_simd_intrinsic_result_type(i, callee, args[0].span) {
            Some(x) => x,
            None => {
                assert(self.ctx.diags@ =~= old(self).ctx.diags@ + old(self).simd_diags(i, callee, args@).unwrap());
                return TY_ERROR;
            },
        };
        let (se, sl) = match self.ctx.types.simd_info(src) {
            Some(x) => x,
            None => {
                self.report(src != TY_ERROR, DiagCode::Simd(SimdDiag::ExpectsVector, i), args[0].span);
                assert(self.ctx.diags@ =~= old(self).ctx.diags@ + old(self).simd_diags(i, callee, args@).unwrap());
                return TY_ERROR;
            },
        };
        if sl != dl {
            self.report(true, DiagCode::Simd(SimdDiag::LaneCountMismatch, i), args[0].span);
            assert(self.ctx.diags@ =~= old(self).ctx.diags@ + old(self).simd_diags(i, callee, args@).unwrap());
            return TY_ERROR;
        }
        let src_numeric = self.ctx.types.is_integer(se) || self.ctx.types.is_float(se) || se == TY_BOOL;
        let dst_numeric = self.ctx.types.is_integer(de) || self.ctx.types.is_float(de);
        self.report(!src_numeric || !dst_numeric, DiagCode::Simd(SimdDiag::CastNotNumeric, i), args[0].span);
        assert(self.ctx.diags@ =~= old(self).ctx.diags@ + old(self).simd_diags(i, callee, args@).unwrap());
        if !src_numeric || !dst_numeric {
            TY_ERROR
        } else {
            dst
        }
    }

    fn simd_bitcast(&mut self, i: SimdIntrinsic, callee: TypeId, args: &Vec<Expr>, default_ret: TypeId) -> (r:
        TypeId)
        requires
            old(self).wf(),
            i is Bitcast,
            args@.len() >= 1,
        ensures
            old(self).simd_done(*final(self), i, callee, args@, default_ret, r),
    {
        proof {
            lemma_prefix_append(old(self).ctx.diags@, old(self).simd_diags(i, callee, args@).unwrap());
        }
        let src = self.resolve_tv(args[0].ty);
        let (dst, _, _) = match self.resolve_simd_intrinsic_result_type(i, callee, args[0].span) {
            Some(x) => x,
            None => {
                assert(self.ctx.diags@ =~= old(self).ctx.diags@ + old(self).simd_diags(i, callee, args@).unwrap());
                return TY_ERROR;
            },
        };
        if !self.ctx.types.is_simd(src) {
            self.report(src != TY_ERROR, DiagCode::Simd(SimdDiag::ExpectsVector, i), args[0].span);
            assert(self.ctx.diags@ =~= old(self).ctx.diags@ + old(self).simd_diags(i, callee, args@).unwrap());
            return TY_ERROR;
        }
        let src_size = self.ctx.types.layout_size(src);
        let dst_size = self.ctx.types.layout_size(dst);
        let differ = match (src_size, dst_size) {
            (Some(a), Some(b)) => a != b,
            (None, None) => false,
            _ => true,
        };
        self.report(differ, DiagCode::Simd(SimdDiag::BitcastSizeMismatch, i), args[0].span);
        assert(self.ctx.diags@ =~= old(self).ctx.diags@ + old(self).simd_diags(i, callee, args@).unwrap());
        if differ {
            TY_ERROR
        } else {
            dst
        }
    }

    fn simd_select(&mut self, i: SimdIntrinsic, callee: TypeId, args: &Vec<Expr>, default_ret: TypeId) -> (r:
        TypeId)
        requires
            old(self).wf(),
            i is Select,
            args@.len() >= 3,
        ensures
            old(self).simd_done(*final(self), i, callee, args@, default_ret, r),
    {
        proof {
            lemma_prefix_append(old(self).ctx.diags@, old(self).simd_diags(i, callee, args@).unwrap());
        }
        let m = self.resolve_tv(args[0].ty);
        let t = self.resolve_tv(args[1].ty);
        let f = self.resolve_tv(args[2].ty);
        let is_mask = self.ctx.types.is_simd_mask(m);
        let t_simd = self.ctx.types.is_simd(t);
        let f_simd = self.ctx.types.is_simd(f);
        self.report(m != TY_ERROR && !is_mask, DiagCode::Simd(SimdDiag::ExpectsMask, i), args[0].span);
        self.report(t != TY_ERROR && !t_simd, DiagCode::Simd(SimdDiag::ExpectsVector, i), args[1].span);
        self.report(f != TY_ERROR && !f_simd, DiagCode::Simd(SimdDiag::ExpectsVector, i), args[2].span);
        self.report(t != TY_ERROR && f != TY_ERROR && t != f, DiagCode::Simd(SimdDiag::TypeMismatch, i), args[2].span);
        let lanes_differ = match (self.ctx.types.simd_info(m), self.ctx.types.simd_info(t)) {
            (Some((_, ml)), Some((_, vl))) => ml != vl,
            _ => false,
        };
        self.report(lanes_differ, DiagCode::Simd(SimdDiag::MaskLaneMismatch, i), args[0].span);
        assert(self.ctx.diags@ =~= old(self).ctx.diags@ + old(self).simd_diags(i, callee, args@).unwrap());
        default_ret
    }

    fn simd_pairwise(&mut self, i: SimdIntrinsic, callee: TypeId, args: &Vec<Expr>, default_ret: TypeId) -> (r:
        TypeId)
        requires
            old(self).wf(),
            is_pairwise(i) || i is Shuffle || i is Min || i is Max,
            args@.len() >= 2,
        ensures
            final(self).ctx.diags@ == old(self).ctx.diags@ + diag_if(
                old(self).not_vector(args@[0].ty),
                sdiag(SimdDiag::ExpectsVector, i, args@[0].span),
            ) + diag_if(
                old(self).not_vector(args@[1].ty),
                sdiag(SimdDiag::ExpectsVector, i, args@[1].span),
            ) + diag_if(
                old(self).resolved(args@[0].ty) != TY_ERROR && old(self).resolved(args@[1].ty)
                    != TY_ERROR && old(self).resolved(args@[0].ty) != old(self).resolved(args@[1].ty),
                sdiag(SimdDiag::TypeMismatch, i, args@[1].span),
            ),
            old(self).same_but_diags(*final(self)),
            r == default_ret,
    {
        let a = self.resolve_tv(args[0].ty);
        let b = self.resolve_tv(args[1].ty);
        let a_simd = self.ctx.types.is_simd(a);
        let b_simd = self.ctx.types.is_simd(b);
        self.report(a != TY_ERROR && !a_simd, DiagCode::Simd(SimdDiag::ExpectsVector, i), args[0].span);
        self.report(b != TY_ERROR && !b_simd, DiagCode::Simd(SimdDiag::ExpectsVector, i), args[1].span);
        self.report(a != TY_ERROR && b != TY_ERROR && a != b, DiagCode::Simd(SimdDiag::TypeMismatch, i), args[1].span);
        default_ret
    }

    fn simd_interleave(&mut self, i: SimdIntrinsic, callee: TypeId, args: &Vec<Expr>, default_ret: TypeId) -> (r:
        TypeId)
        requires
            old(self).wf(),
            is_pairwise(i),
            args@.len() >= 2,
        ensures
            old(self).simd_done(*final(self), i, callee, args@, default_ret, r),
    {
        proof {
            lemma_prefix_append(old(self).ctx.diags@, old(self).simd_diags(i, callee, args@).unwrap());
        }
        let r = self.simd_pairwise(i, callee, args, default_ret);
        let a = self.resolve_tv(args[0].ty);
        let odd = match self.ctx.types.simd_info(a) {
            Some((_, l)) => l % 2 != 0,
            None => false,
        };
        self.report(odd, DiagCode::Simd(SimdDiag::OddLaneCount, i), args[0].span);
        assert(self.ctx.diags@ =~= old(self).ctx.diags@ + old(self).simd_diags(i, callee, args@).unwrap());
        r
    }

    fn simd_min_max(&mut self, i: SimdIntrinsic, callee: TypeId, args: &Vec<Expr>, default_ret: TypeId) -> (r:
        TypeId)
        requires
            old(self).wf(),
            i is Min || i is Max,
            args@.len() >= 2,
        ensures
            old(self).simd_done(*final(self), i, callee, args@, default_ret, r),
    {
        proof {
            lemma_prefix_append(old(self).ctx.diags@, old(self).simd_diags(i, callee, args@).unwrap());
        }
        let r = self.simd_pairwise(i, callee, args, default_ret);
        let a = self.resolve_tv(args[0].ty);
        let bad = match self.ctx.types.simd_info(a) {
            Some((e, _)) => !self.ctx.types.is_integer(e) && !self.ctx.types.is_float(e),
            None => false,
        };
        self.report(bad, DiagCode::Simd(SimdDiag::LaneKind, i), args[0].span);
        assert(self.ctx.diags@ =~= old(self).ctx.diags@ + old(self).simd_diags(i, callee, args@).unwrap());
        r
    }

    fn simd_clamp(&mut self, i: SimdIntrinsic, callee: TypeId, args: &Vec<Expr>, default_ret: TypeId) -> (r:
        TypeId)
        requires
            old(self).wf(),
            i is Clamp,
            args@.len() >= 3,
        ensures
            old(self).simd_done(*final(self), i, callee, args@, default_ret, r),
    {
        proof {
            lemma_prefix_append(old(self).ctx.diags@, old(self).simd_diags(i, callee, args@).unwrap());
        }
        let v = self.resolve_tv(args[0].ty);
        let lo = self.resolve_tv(args[1].ty);
        let hi = self.resolve_tv(args[2].ty);
        let v_simd = self.ctx.types.is_simd(v);
        let lo_simd = self.ctx.types.is_simd(lo);
        let hi_simd = self.ctx.types.is_simd(hi);
        self.report(v != TY_ERROR && !v_simd, DiagCode::Simd(SimdDiag::ExpectsVector, i), args[0].span);
        self.report(lo != TY_ERROR && !lo_simd, DiagCode::Simd(SimdDiag::ExpectsVector, i), args[1].span);
        self.report(hi != TY_ERROR && !hi_simd, DiagCode::Simd(SimdDiag::ExpectsVector, i), args[2].span);
        self.report(v != TY_ERROR && lo != TY_ERROR && v != lo, DiagCode::Simd(SimdDiag::TypeMismatch, i), args[1].span);
        self.report(v != TY_ERROR && hi != TY_ERROR && v != hi, DiagCode::Simd(SimdDiag::TypeMismatch, i), args[2].span);
        let bad = match self.ctx.types.simd_info(v) {
            Some((e, _)) => !self.ctx.types.is_integer(e) && !self.ctx.types.is_float(e),
            None => false,
        };
        self.report(bad, DiagCode::Simd(SimdDiag::LaneKind, i), args[0].span);
        assert(self.ctx.diags@ =~= old(self).ctx.diags@ + old(self).simd_diags(i, callee, args@).unwrap());
        default_ret
    }

    /// Intrinsics on one vector that check its lane type.
    fn simd_unary_lanes(&mut self, i: SimdIntrinsic, callee: TypeId, args: &Vec<Expr>, default_ret: TypeId) -> (r:
        TypeId)
        requires
            old(self).wf(),
            is_reduce(i) || i is Abs || is_rounding(i),
            args@.len() >= 1,
        ensures
            old(self).simd_done(*final(self), i, callee, args@, default_ret, r),
    {
        proof {
            lemma_prefix_append(old(self).ctx.diags@, old(self).simd_diags(i, callee, args@).unwrap());
        }
        let v = self.resolve_tv(args[0].ty);
        let e = match self.ctx.types.simd_info(v) {
            Some((e, _)) => e,
            None => {
                self.report(v != TY_ERROR, DiagCode::Simd(SimdDiag::ExpectsVector, i), args[0].span);
                return TY_ERROR;
            },
        };
        let ok = match i {
            SimdIntrinsic::ReduceAnd | SimdIntrinsic::ReduceOr | SimdIntrinsic::ReduceXor => self.ctx.types.is_integer(e)
                || e == TY_BOOL,
            SimdIntrinsic::Abs => self.is_signed_integer_type(e) || self.ctx.types.is_float(e),
            SimdIntrinsic::Sqrt | SimdIntrinsic::Floor | SimdIntrinsic::Ceil | SimdIntrinsic::Trunc
            | SimdIntrinsic::Round => self.ctx.types.is_float(e),
            _ => self.ctx.types.is_integer(e) || self.ctx.types.is_float(e),
        };
        self.report(!ok, DiagCode::Simd(SimdDiag::LaneKind, i), args[0].span);
        assert(self.ctx.diags@ =~= old(self).ctx.diags@ + old(self).simd_diags(i, callee, args@).unwrap());
        if is_reduce_exec(i) {
            e
        } else {
            default_ret
        }
    }
}

fn is_reduce_exec(i: SimdIntrinsic) -> (r: bool)
    ensures
        r == is_reduce(i),
{
    match i {
        SimdIntrinsic::ReduceAdd | SimdIntrinsic::ReduceMul | SimdIntrinsic::ReduceAnd
        | SimdIntrinsic::ReduceOr | SimdIntrinsic::ReduceXor | SimdIntrinsic::ReduceMin
        | SimdIntrinsic::ReduceMax => true,
        _ => false,
    }
}

impl ExprChecker {
    fn simd_shuffle(&mut self, i: SimdIntrinsic, callee: TypeId, args: &Vec<Expr>, default_ret: TypeId) -> (r:
        TypeId)
        requires
            old(self).wf(),
            i is Shuffle,
            args@.len() >= 3,
        ensures
            old(self).simd_done(*final(self), i, callee, args@, default_ret, r),
    {
        let r = self.simd_pairwise(i, callee, args, default_ret);
        let ghost mid = self.ctx.diags@;
        proof {
            lemma_prefix_append(old(self).ctx.diags@, mid.subrange(old(self).ctx.diags@.len() as int, mid.len() as int));
            assert(old(self).ctx.diags@ + mid.subrange(old(self).ctx.diags@.len() as int, mid.len() as int) =~= mid);
        }
        let a = self.resolve_tv(args[0].ty);
        if let Some((_, lanes)) = self.ctx.types.simd_info(a) {
            let _ = self.eval_simd_shuffle_indices(&args[2], lanes);
        }
        proof {
            crate::eval::lemma_prefix_trans(old(self).ctx.diags@, mid, self.ctx.diags@);
        }
        r
    }

    fn simd_swizzle(&mut self, i: SimdIntrinsic, callee: TypeId, args: &Vec<Expr>, default_ret: TypeId) -> (r:
        TypeId)
        requires
            old(self).wf(),
            i is Swizzle,
            args@.len() >= 2,
        ensures
            old(self).simd_done(*final(self), i, callee, args@, default_ret, r),
    {
        let v = self.resolve_tv(args[0].ty);
        match self.ctx.types.simd_info(v) {
            Some((_, lanes)) => {
                let _ = self.eval_simd_swizzle_indices(&args[1], lanes);
                default_ret
            },
            None => {
                self.report(v != TY_ERROR, DiagCode::Simd(SimdDiag::ExpectsVector, i), args[0].span);
                proof {
                    lemma_prefix_append(old(self).ctx.diags@, self.ctx.diags@.subrange(old(self).ctx.diags@.len() as int, self.ctx.diags@.len() as int));
                    assert(old(self).ctx.diags@ + self.ctx.diags@.subrange(old(self).ctx.diags@.len() as int, self.ctx.diags@.len() as int) =~= self.ctx.diags@);
                }
                TY_ERROR
            },
        }
    }

    fn simd_reverse(&mut self, i: SimdIntrinsic, callee: TypeId, args: &Vec<Expr>, default_ret: TypeId) -> (r:
        TypeId)
        requires
            old(self).wf(),
            i is Reverse,
            args@.len() >= 1,
        ensures
            old(self).simd_done(*final(self), i, callee, args@, default_ret, r),
    {
        proof {
            lemma_prefix_append(old(self).ctx.diags@, old(self).simd_diags(i, callee, args@).unwrap());
        }
        let v = self.resolve_tv(args[0].ty);
        let is_vec = self.ctx.types.is_simd(v);
        self.report(v != TY_ERROR && !is_vec, DiagCode::Simd(SimdDiag::ExpectsVector, i), args[0].span);
        default_ret
    }

    fn simd_rotate(&mut self, i: SimdIntrinsic, callee: TypeId, args: &Vec<Expr>, default_ret: TypeId) -> (r:
        TypeId)
        requires
            old(self).wf(),
            i is RotateLeft || i is RotateRight,
            args@.len() >= 2,
        ensures
            old(self).simd_done(*final(self), i, callee, args@, default_ret, r),
    {
        let v = self.resolve_tv(args[0].ty);
        match self.ctx.types.simd_info(v) {
            Some((_, lanes)) => {
                if lanes > 0 {
                    let _ = self.eval_simd_rotate_amount(&args[1], i, lanes);
                } else {
                    proof {
                        lemma_prefix_append(old(self).ctx.diags@, Seq::empty());
                        assert(old(self).ctx.diags@ + Seq::<Diagnostic>::empty() =~= old(self).ctx.diags@);
                    }
                }
                default_ret
            },
            None => {
                self.report(v != TY_ERROR, DiagCode::Simd(SimdDiag::ExpectsVector, i), args[0].span);
                proof {
                    lemma_prefix_append(old(self).ctx.diags@, self.ctx.diags@.subrange(old(self).ctx.diags@.len() as int, self.ctx.diags@.len() as int));
                    assert(old(self).ctx.diags@ + self.ctx.diags@.subrange(old(self).ctx.diags@.len() as int, self.ctx.diags@.len() as int) =~= self.ctx.diags@);
                }
                TY_ERROR
            },
        }
    }

    fn simd_half(&mut self, i: SimdIntrinsic, callee: TypeId, args: &Vec<Expr>, default_ret: TypeId) -> (r:
        TypeId)
        requires
            old(self).wf(),
            i is LowHalf || i is HighHalf,
            args@.len() >= 1,
        ensures
            old(self).simd_done(*final(self), i, callee, args@, default_ret, r),
    {
        proof {
            lemma_prefix_append(old(self).ctx.diags@, old(self).simd_diags(i, callee, args@).unwrap());
        }
        let (h, _, _) = match self.resolve_simd_intrinsic_result_type(i, callee, args[0].span) {
            Some(x) => x,
            None => {
                assert(self.ctx.diags@ =~= old(self).ctx.diags@ + old(self).simd_diags(i, callee, args@).unwrap());
                return TY_ERROR;
            },
        };
        let ok = self.check_simd_half_relation(i, args[0].ty, args[0].span, h, args[0].span);
        assert(self.ctx.diags@ =~= old(self).ctx.diags@ + old(self).simd_diags(i, callee, args@).unwrap());
        if ok {
            h
        } else {
            TY_ERROR
        }
    }

    fn simd_with_half(&mut self, i: SimdIntrinsic, callee: TypeId, args: &Vec<Expr>, default_ret: TypeId) -> (r:
        TypeId)
        requires
            old(self).wf(),
            i is WithLowHalf || i is WithHighHalf,
            args@.len() >= 2,
        ensures
            old(self).simd_done(*final(self), i, callee, args@, default_ret, r),
    {
        proof {
            lemma_prefix_append(old(self).ctx.diags@, old(self).simd_diags(i, callee, args@).unwrap());
        }
        let (f, _, _) = match self.resolve_simd_intrinsic_result_type(i, callee, args[0].span) {
            Some(x) => x,
            None => {
                assert(self.ctx.diags@ =~= old(self).ctx.diags@ + old(self).simd_diags(i, callee, args@).unwrap());
                return TY_ERROR;
            },
        };
        let base = self.resolve_tv(args[0].ty);
        self.report(base != TY_ERROR && base != f, DiagCode::Simd(SimdDiag::BaseMismatch, i), args[0].span);
        let ok = self.check_simd_half_relation(i, f, args[0].span, args[1].ty, args[1].span);
        assert(self.ctx.diags@ =~= old(self).ctx.diags@ + old(self).simd_diags(i, callee, args@).unwrap());
        if ok {
            f
        } else {
            TY_ERROR
        }
    }

    fn simd_gather(&mut self, i: SimdIntrinsic, callee: TypeId, args: &Vec<Expr>, default_ret: TypeId) -> (r:
        TypeId)
        requires
            old(self).wf(),
            i is Gather,
            args@.len() >= 2,
        ensures
            old(self).simd_done(*final(self), i, callee, args@, default_ret, r),
    {
        proof {
            lemma_prefix_append(old(self).ctx.diags@, old(self).simd_diags(i, callee, args@).unwrap());
        }
        let _ = self.check_simd_index_ptr_arg(&args[1], i);
        let (v, e, _) = match self.resolve_simd_intrinsic_result_type(i, callee, args[0].span) {
            Some(x) => x,
            None => {
                assert(self.ctx.diags@ =~= old(self).ctx.diags@ + old(self).simd_diags(i, callee, args@).unwrap());
                return TY_ERROR;
            },
        };
        self.check_simd_lane_pointer(args[0].ty, e, false, i, args[0].span);
        assert(self.ctx.diags@ =~= old(self).ctx.diags@ + old(self).simd_diags(i, callee, args@).unwrap());
        v
    }

    fn simd_scatter(&mut self, i: SimdIntrinsic, callee: TypeId, args: &Vec<Expr>, default_ret: TypeId) -> (r:
        TypeId)
        requires
            old(self).wf(),
            i is Scatter,
            args@.len() >= 3,
        ensures
            old(self).simd_done(*final(self), i, callee, args@, default_ret, r),
    {
        proof {
            lemma_prefix_append(old(self).ctx.diags@, old(self).simd_diags(i, callee, args@).unwrap());
        }
        let _ = self.check_simd_index_ptr_arg(&args[1], i);
        let v = self.resolve_tv(args[2].ty);
        match self.ctx.types.simd_info(v) {
            Some((e, _)) => {
                self.check_simd_lane_pointer(args[0].ty, e, true, i, args[0].span);
            },
            None => {
                self.report(v != TY_ERROR, DiagCode::Simd(SimdDiag::ExpectsVector, i), args[2].span);
            },
        }
        assert(self.ctx.diags@ =~= old(self).ctx.diags@ + old(self).simd_diags(i, callee, args@).unwrap());
        default_ret
    }

    fn simd_masked_gather(&mut self, i: SimdIntrinsic, callee: TypeId, args: &Vec<Expr>, default_ret: TypeId) -> (r:
        TypeId)
        requires
            old(self).wf(),
            i is MaskedGather,
            args@.len() >= 4,
        ensures
            old(self).simd_done(*final(self), i, callee, args@, default_ret, r),
    {
        proof {
            lemma_prefix_append(old(self).ctx.diags@, old(self).simd_diags(i, callee, args@).unwrap());
        }
        let _ = self.check_simd_index_ptr_arg(&args[1], i);
        let mask = self.check_simd_mask_arg(&args[2], i);
        let (v, e, lanes) = match self.resolve_simd_intrinsic_result_type(i, callee, args[0].span) {
            Some(x) => x,
            None => {
                assert(self.ctx.diags@ =~= old(self).ctx.diags@ + old(self).simd_diags(i, callee, args@).unwrap());
                return TY_ERROR;
            },
        };
        let fb = self.resolve_tv(args[3].ty);
        self.report(fb != TY_ERROR && fb != v, DiagCode::Simd(SimdDiag::FallbackMismatch, i), args[3].span);
        match mask {
            Some((_, ml)) => self.check_simd_mask_lane_match(&args[2], i, ml, lanes),
            None => self.report(false, DiagCode::Simd(SimdDiag::MaskLaneMismatch, i), args[2].span),
        }
        self.check_simd_lane_pointer(args[0].ty, e, false, i, args[0].span);
        assert(self.ctx.diags@ =~= old(self).ctx.diags@ + old(self).simd_diags(i, callee, args@).unwrap());
        v
    }

    fn simd_masked_scatter(&mut self, i: SimdIntrinsic, callee: TypeId, args: &Vec<Expr>, default_ret: TypeId) -> (r:
        TypeId)
        requires
            old(self).wf(),
            i is MaskedScatter,
            args@.len() >= 4,
        ensures
            old(self).simd_done(*final(self), i, callee, args@, default_ret, r),
    {
        proof {
            lemma_prefix_append(old(self).ctx.diags@, old(self).simd_diags(i, callee, args@).unwrap());
        }
        let _ = self.check_simd_index_ptr_arg(&args[1], i);
        let mask = self.check_simd_mask_arg(&args[2], i);
        let v = self.resolve_tv(args[3].ty);
        match self.ctx.types.simd_info(v) {
            Some((e, lanes)) => {
                match mask {
                    Some((_, ml)) => self.check_simd_mask_lane_match(&args[2], i, ml, lanes),
                    None => self.report(false, DiagCode::Simd(SimdDiag::MaskLaneMismatch, i), args[2].span),
                }
                self.check_simd_lane_pointer(args[0].ty, e, true, i, args[0].span);
            },
            None => {
                self.report(v != TY_ERROR, DiagCode::Simd(SimdDiag::ExpectsVector, i), args[3].span);
            },
        }
        assert(self.ctx.diags@ =~= old(self).ctx.diags@ + old(self).simd_diags(i, callee, args@).unwrap());
        default_ret
    }

    /// Loads: the alignment constant, then the pointer to the lanes; the mask
    /// and fallback for a masked load.
    fn simd_load(&mut self, i: SimdIntrinsic, callee: TypeId, args: &Vec<Expr>, default_ret: TypeId) -> (r:
        TypeId)
        requires
            old(self).wf(),
            i is Load || i is MaskedLoad,
            i is Load ==> args@.len() >= 2,
            i is MaskedLoad ==> args@.len() >= 4,
        ensures
            old(self).simd_done(*final(self), i, callee, args@, default_ret, r),
    {
        let is_masked = match i {
            SimdIntrinsic::MaskedLoad => true,
            _ => false,
        };
        let mask = if is_masked {
            let m = self.check_simd_mask_arg(&args[1], i);
            proof {
                lemma_prefix_append(old(self).ctx.diags@, self.ctx.diags@.subrange(old(self).ctx.diags@.len() as int, self.ctx.diags@.len() as int));
                assert(old(self).ctx.diags@ + self.ctx.diags@.subrange(old(self).ctx.diags@.len() as int, self.ctx.diags@.len() as int) =~= self.ctx.diags@);
            }
            let _ = self.eval_simd_align_arg(&args[3], i);
            m
        } else {
            let _ = self.eval_simd_align_arg(&args[1], i);
            None
        };
        let ghost m1 = self.ctx.diags@;
        assert(old(self).ctx.diags@.is_prefix_of(m1)) by {
            if is_masked {
                crate::eval::lemma_prefix_trans(old(self).ctx.diags@, old(self).ctx.diags@, m1);
            }
        }
        let res = self.resolve_simd_intrinsic_result_type(i, callee, args[0].span);
        let ghost m2 = self.ctx.diags@;
        proof {
            lemma_prefix_append(m1, m2.subrange(m1.len() as int, m2.len() as int));
            assert(m1 + m2.subrange(m1.len() as int, m2.len() as int) =~= m2);
            crate::eval::lemma_prefix_trans(old(self).ctx.diags@, m1, m2);
        }
        let (v, e, lanes) = match res {
            Some(x) => x,
            None => {
                return TY_ERROR;
            },
        };
        if is_masked {
            let fb = self.resolve_tv(args[2].ty);
            self.report(fb != TY_ERROR && fb != v, DiagCode::Simd(SimdDiag::FallbackMismatch, i), args[2].span);
            if let Some((_, ml)) = mask {
                self.check_simd_mask_lane_match(&args[1], i, ml, lanes);
            }
        }
        self.check_simd_lane_pointer(args[0].ty, e, false, i, args[0].span);
        let ghost m3 = self.ctx.diags@;
        proof {
            lemma_prefix_append(m2, m3.subrange(m2.len() as int, m3.len() as int));
            assert(m2 + m3.subrange(m2.len() as int, m3.len() as int) =~= m3);
            crate::eval::lemma_prefix_trans(old(self).ctx.diags@, m2, m3);
        }
        v
    }

    /// Stores: the value, the alignment constant, then the pointer written
    /// through; the mask for a masked store.
    fn simd_store(&mut self, i: SimdIntrinsic, callee: TypeId, args: &Vec<Expr>, default_ret: TypeId) -> (r:
        TypeId)
        requires
            old(self).wf(),
            i is Store || i is MaskedStore,
            i is Store ==> args@.len() >= 3,
            i is MaskedStore ==> args@.len() >= 4,
        ensures
            old(self).simd_done(*final(self), i, callee, args@, default_ret, r),
            ends_with(final(self).ctx.diags@, old(self).store_tail(i, args@)),
    {
        let is_masked = match i {
            SimdIntrinsic::MaskedStore => true,
            _ => false,
        };
        let mask = if is_masked {
            let m = self.check_simd_mask_arg(&args[1], i);
            proof {
                lemma_prefix_append(old(self).ctx.diags@, self.ctx.diags@.subrange(old(self).ctx.diags@.len() as int, self.ctx.diags@.len() as int));
                assert(old(self).ctx.diags@ + self.ctx.diags@.subrange(old(self).ctx.diags@.len() as int, self.ctx.diags@.len() as int) =~= self.ctx.diags@);
            }
            let ghost m0 = self.ctx.diags@;
            let _ = self.eval_simd_align_arg(&args[3], i);
            proof {
                crate::eval::lemma_prefix_trans(old(self).ctx.diags@, m0, self.ctx.diags@);
            }
            m
        } else {
            let _ = self.eval_simd_align_arg(&args[2], i);
            None
        };
        let ghost m1 = self.ctx.diags@;
        let ghost st1 = *self;
        proof {
            assert(old(self).same_but_diags(st1));
            let vi: int = if is_masked { 2 } else { 1 };
            assert(st1.vec_info(args@[vi].ty) == old(self).vec_info(args@[vi].ty));
            assert(st1.resolved(args@[vi].ty) == old(self).resolved(args@[vi].ty));
        }
        let value_arg = if is_masked {
            2usize
        } else {
            1usize
        };
        let v = self.resolve_tv(args[value_arg].ty);
        match self.ctx.types.simd_info(v) {
            Some((e, lanes)) => {
                if let Some((_, ml)) = mask {
                    self.check_simd_mask_lane_match(&args[1], i, ml, lanes);
                }
                self.check_simd_lane_pointer(args[0].ty, e, true, i, args[0].span);
            },
            None => {
                self.report(v != TY_ERROR, DiagCode::Simd(SimdDiag::ExpectsVector, i), args[value_arg].span);
            },
        }
        let ghost m2 = self.ctx.diags@;
        proof {
            assert(m2 =~= m1 + old(self).store_tail(i, args@));
            assert(m2.subrange(m2.len() - old(self).store_tail(i, args@).len(), m2.len() as int) =~= old(self).store_tail(i, args@));
            lemma_prefix_append(m1, m2.subrange(m1.len() as int, m2.len() as int));
            assert(m1 + m2.subrange(m1.len() as int, m2.len() as int) =~= m2);
            crate::eval::lemma_prefix_trans(old(self).ctx.diags@, m1, m2);
        }
        default_ret
    }

    /// Checks a call of the SIMD intrinsic `intrinsic` whose arguments have
    /// been checked, and gives the type of the call; `default_ret` is the
    /// return type of the intrinsic's signature.
    pub fn check_simd_intrinsic_call(
        &mut self,
        intrinsic: SimdIntrinsic,
        callee_ty: TypeId,
        args: &Vec<Expr>,
        default_ret: TypeId,
    ) -> (r: Option<TypeId>)
        requires
            old(self).wf(),
            args@.len() >= intrinsic.arity(),
        ensures
            r == Some(old(self).simd_result(intrinsic, callee_ty, args@, default_ret)),
            old(self).same_but_diags(*final(self)),
            old(self).ctx.diags@.is_prefix_of(final(self).ctx.diags@),
            old(self).simd_diags(intrinsic, callee_ty, args@) matches Some(ds) ==> final(self).ctx.diags@
                == old(self).ctx.diags@ + ds,
            intrinsic is Store || intrinsic is MaskedStore ==> ends_with(
                final(self).ctx.diags@,
                old(self).store_tail(intrinsic, args@),
            ),
    {
        let i = intrinsic;
        let t = match i {
            SimdIntrinsic::Any | SimdIntrinsic::All => self.simd_mask_test(i, callee_ty, args, default_ret),
            SimdIntrinsic::Bitmask => self.simd_bitmask(i, callee_ty, args, default_ret),
            SimdIntrinsic::Splat => self.simd_splat(i, callee_ty, args, default_ret),
            SimdIntrinsic::Cast => self.simd_cast(i, callee_ty, args, default_ret),
            SimdIntrinsic::Bitcast => self.simd_bitcast(i, callee_ty, args, default_ret),
            SimdIntrinsic::Select => self.simd_select(i, callee_ty, args, default_ret),
            SimdIntrinsic::Shuffle => self.simd_shuffle(i, callee_ty, args, default_ret),
            SimdIntrinsic::Swizzle => self.simd_swizzle(i, callee_ty, args, default_ret),
            SimdIntrinsic::Reverse => self.simd_reverse(i, callee_ty, args, default_ret),
            SimdIntrinsic::RotateLeft | SimdIntrinsic::RotateRight => self.simd_rotate(
                i,
                callee_ty,
                args,
                default_ret,
            ),
            SimdIntrinsic::InterleaveLo | SimdIntrinsic::InterleaveHi | SimdIntrinsic::ZipLo
            | SimdIntrinsic::ZipHi | SimdIntrinsic::ConcatLo | SimdIntrinsic::ConcatHi
            | SimdIntrinsic::DeinterleaveLo | SimdIntrinsic::DeinterleaveHi
            | SimdIntrinsic::UnzipLo | SimdIntrinsic::UnzipHi => self.simd_interleave(
                i,
                callee_ty,
                args,
                default_ret,
            ),
            SimdIntrinsic::LowHalf | SimdIntrinsic::HighHalf => self.simd_half(
                i,
                callee_ty,
                args,
                default_ret,
            ),
            SimdIntrinsic::WithLowHalf | SimdIntrinsic::WithHighHalf => self.simd_with_half(
                i,
                callee_ty,
                args,
                default_ret,
            ),
            SimdIntrinsic::ReduceAdd | SimdIntrinsic::ReduceMul | SimdIntrinsic::ReduceAnd
            | SimdIntrinsic::ReduceOr | SimdIntrinsic::ReduceXor | SimdIntrinsic::ReduceMin
            | SimdIntrinsic::ReduceMax | SimdIntrinsic::Abs | SimdIntrinsic::Sqrt
            | SimdIntrinsic::Floor | SimdIntrinsic::Ceil | SimdIntrinsic::Trunc
            | SimdIntrinsic::Round => self.simd_unary_lanes(i, callee_ty, args, default_ret),
            SimdIntrinsic::Min | SimdIntrinsic::Max => self.simd_min_max(i, callee_ty, args, default_ret),
            SimdIntrinsic::Clamp => self.simd_clamp(i, callee_ty, args, default_ret),
            SimdIntrinsic::Load | SimdIntrinsic::MaskedLoad => self.simd_load(
                i,
                callee_ty,
                args,
                default_ret,
            ),
            SimdIntrinsic::Store | SimdIntrinsic::MaskedStore => self.simd_store(
                i,
                callee_ty,
                args,
                default_ret,
            ),
            SimdIntrinsic::Gather => self.simd_gather(i, callee_ty, args, default_ret),
            SimdIntrinsic::Scatter => self.simd_scatter(i, callee_ty, args, default_ret),
            SimdIntrinsic::MaskedGather => self.simd_masked_gather(i, callee_ty, args, default_ret),
            SimdIntrinsic::MaskedScatter => self.simd_masked_scatter(i, callee_ty, args, default_ret),
        };
        Some(t)
    }
}
} // verus!
