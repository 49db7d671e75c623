//! The SIMD and atomic intrinsics the checker knows, the problems it reports
//! about their arguments, and the atomic memory orderings.

use vstd::prelude::*;

verus! {

#[derive(Clone, Copy, Debug, PartialEq, Eq, Structural)]
pub enum SimdIntrinsic {
    Any,
    All,
    Bitmask,
    Splat,
    Cast,
    Bitcast,
    Select,
    Shuffle,
    Swizzle,
    Reverse,
    RotateLeft,
    RotateRight,
    InterleaveLo,
    InterleaveHi,
    ZipLo,
    ZipHi,
    ConcatLo,
    ConcatHi,
    DeinterleaveLo,
    DeinterleaveHi,
    UnzipLo,
    UnzipHi,
    LowHalf,
    HighHalf,
    WithLowHalf,
    WithHighHalf,
    ReduceAdd,
    ReduceMul,
    ReduceAnd,
    ReduceOr,
    ReduceXor,
    ReduceMin,
    ReduceMax,
    Abs,
    Sqrt,
    Floor,
    Ceil,
    Trunc,
    Round,
    Min,
    Max,
    Clamp,
    Load,
    Store,
    MaskedLoad,
    MaskedStore,
    Gather,
    Scatter,
    MaskedGather,
    MaskedScatter,
}

impl SimdIntrinsic {
    /// Number of arguments the intrinsic takes.
    pub open spec fn arity(self) -> nat {
        match self {
            SimdIntrinsic::Select | SimdIntrinsic::Shuffle | SimdIntrinsic::Clamp
            | SimdIntrinsic::Store | SimdIntrinsic::Scatter => 3,
            SimdIntrinsic::MaskedLoad | SimdIntrinsic::MaskedStore | SimdIntrinsic::MaskedGather
            | SimdIntrinsic::MaskedScatter => 4,
            SimdIntrinsic::Swizzle | SimdIntrinsic::RotateLeft | SimdIntrinsic::RotateRight
            | SimdIntrinsic::InterleaveLo | SimdIntrinsic::InterleaveHi | SimdIntrinsic::ZipLo
            | SimdIntrinsic::ZipHi | SimdIntrinsic::ConcatLo | SimdIntrinsic::ConcatHi
            | SimdIntrinsic::DeinterleaveLo | SimdIntrinsic::DeinterleaveHi
            | SimdIntrinsic::UnzipLo | SimdIntrinsic::UnzipHi | SimdIntrinsic::WithLowHalf
            | SimdIntrinsic::WithHighHalf | SimdIntrinsic::Min | SimdIntrinsic::Max
            | SimdIntrinsic::Load | SimdIntrinsic::Gather => 2,
            _ => 1,
        }
    }

    /// The number of arguments the intrinsic takes.
    pub fn num_args(&self) -> (r: usize)
        ensures
            r == self.arity(),
    {
        match self {
            SimdIntrinsic::Select | SimdIntrinsic::Shuffle | SimdIntrinsic::Clamp
            | SimdIntrinsic::Store | SimdIntrinsic::Scatter => 3,
            SimdIntrinsic::MaskedLoad | SimdIntrinsic::MaskedStore | SimdIntrinsic::MaskedGather
            | SimdIntrinsic::MaskedScatter => 4,
            SimdIntrinsic::Swizzle | SimdIntrinsic::RotateLeft | SimdIntrinsic::RotateRight
            | SimdIntrinsic::InterleaveLo | SimdIntrinsic::InterleaveHi | SimdIntrinsic::ZipLo
            | SimdIntrinsic::ZipHi | SimdIntrinsic::ConcatLo | SimdIntrinsic::ConcatHi
            | SimdIntrinsic::DeinterleaveLo | SimdIntrinsic::DeinterleaveHi
            | SimdIntrinsic::UnzipLo | SimdIntrinsic::UnzipHi | SimdIntrinsic::WithLowHalf
            | SimdIntrinsic::WithHighHalf | SimdIntrinsic::Min | SimdIntrinsic::Max
            | SimdIntrinsic::Load | SimdIntrinsic::Gather => 2,
            _ => 1,
        }
    }
}

/// What is wrong with the arguments of a SIMD intrinsic.
#[derive(Clone, Copy, Debug, PartialEq, Eq, Structural)]
pub enum SimdDiag {
    ExpectsMask,
    ExpectsVector,
    BitmaskTooWide,
    ScalarLaneMismatch,
    LaneCountMismatch,
    CastNotNumeric,
    BitcastSizeMismatch,
    TypeMismatch,
    MaskLaneMismatch,
    OddLaneCount,
    BaseMismatch,
    LaneKind,
    PointerElemMismatch,
    ExpectsPointer,
    PointerNotMut,
    FallbackMismatch,
    ResultTypeMissing,
    ResultTypeNotSimd,
    AlignNotConst,
    AlignNotPow2,
    AlignTooLarge,
    AmountNotConst,
    IndicesNotArray,
    IndexCountMismatch,
    IndicesNotInt,
    IndexOutOfRange,
    IndexPtrElem,
    IndexPtrExpected,
    HalfLaneType,
    HalfLaneCount,
}

#[derive(Clone, Copy, Debug, PartialEq, Eq, Structural)]
pub enum AtomicIntrinsic {
    Load,
    Store,
    Cas,
    CasWeak,
    Xchg,
    RmwAdd,
    RmwSub,
    RmwAnd,
    RmwNand,
    RmwOr,
    RmwXor,
    RmwMax,
    RmwMin,
    RmwUMax,
    RmwUMin,
    Fence,
}

/// Which ordering argument of an atomic intrinsic a check is about.
#[derive(Clone, Copy, Debug, PartialEq, Eq, Structural)]
pub enum OrderRole {
    Load,
    Store,
    CasSuccess,
    CasFailure,
    Rmw,
    Fence,
}

/// What is wrong with the arguments of an atomic intrinsic.
#[derive(Clone, Copy, Debug, PartialEq, Eq, Structural)]
pub enum AtomicDiag {
    UnsupportedType,
    TooWideForTarget,
    OrderNotInteger,
    InvalidOrderConstant,
    OrderNotValidHere,
    FailureStrongerThanSuccess,
}

/// The memory orderings of atomic operations.
#[derive(Clone, Copy, Debug, PartialEq, Eq, Structural)]
pub enum AtomicOrdering {
    Relaxed,
    Acquire,
    Release,
    AcqRel,
    SeqCst,
}

pub open spec fn ordering_of(v: i128) -> Option<AtomicOrdering> {
    if v == 0 {
        Some(AtomicOrdering::Relaxed)
    } else if v == 1 {
        Some(AtomicOrdering::Acquire)
    } else if v == 2 {
        Some(AtomicOrdering::Release)
    } else if v == 3 {
        Some(AtomicOrdering::AcqRel)
    } else if v == 4 {
        Some(AtomicOrdering::SeqCst)
    } else {
        None
    }
}

/// The number an ordering is written as.
pub open spec fn ordering_abi(o: AtomicOrdering) -> i128 {
    match o {
        AtomicOrdering::Relaxed => 0,
        AtomicOrdering::Acquire => 1,
        AtomicOrdering::Release => 2,
        AtomicOrdering::AcqRel => 3,
        AtomicOrdering::SeqCst => 4,
    }
}

/// The orderings an ordering argument in `role` admits.
pub open spec fn ordering_valid_for(role: OrderRole, o: AtomicOrdering) -> bool {
    match role {
        OrderRole::Load | OrderRole::CasFailure => o is Relaxed || o is Acquire || o is SeqCst,
        OrderRole::Store => o is Relaxed || o is Release || o is SeqCst,
        OrderRole::CasSuccess | OrderRole::Rmw => true,
        OrderRole::Fence => !(o is Relaxed),
    }
}

/// A compare-and-swap failure ordering no stronger than its success ordering.
pub open spec fn failure_within(failure: AtomicOrdering, success: AtomicOrdering) -> bool {
    match failure {
        AtomicOrdering::Relaxed => true,
        AtomicOrdering::Acquire => success is Acquire || success is AcqRel || success is SeqCst,
        AtomicOrdering::SeqCst => success is SeqCst,
        _ => false,
    }
}

impl AtomicOrdering {
    /// The ordering written as `v`, for `0` to `4`.
    pub fn from_abi_const(v: i128) -> (r: Option<AtomicOrdering>)
        ensures
            r == ordering_of(v),
    {
        if v == 0 {
            Some(AtomicOrdering::Relaxed)
        } else if v == 1 {
            Some(AtomicOrdering::Acquire)
        } else if v == 2 {
            Some(AtomicOrdering::Release)
        } else if v == 3 {
            Some(AtomicOrdering::AcqRel)
        } else if v == 4 {
            Some(AtomicOrdering::SeqCst)
        } else {
            None
        }
    }

    pub fn abi_const(&self) -> (r: i128)
        ensures
            r == ordering_abi(*self),
    {
        match self {
            AtomicOrdering::Relaxed => 0,
            AtomicOrdering::Acquire => 1,
            AtomicOrdering::Release => 2,
            AtomicOrdering::AcqRel => 3,
            AtomicOrdering::SeqCst => 4,
        }
    }

    pub fn valid_for(&self, role: OrderRole) -> (r: bool)
        ensures
            r == ordering_valid_for(role, *self),
    {
        match role {
            OrderRole::Load | OrderRole::CasFailure => match self {
                AtomicOrdering::Relaxed | AtomicOrdering::Acquire | AtomicOrdering::SeqCst => true,
                _ => false,
            },
            OrderRole::Store => match self {
                AtomicOrdering::Relaxed | AtomicOrdering::Release | AtomicOrdering::SeqCst => true,
                _ => false,
            },
            OrderRole::CasSuccess | OrderRole::Rmw => true,
            OrderRole::Fence => match self {
                AtomicOrdering::Relaxed => false,
                _ => true,
            },
        }
    }

    /// Whether this failure ordering is no stronger than `success`.
    pub fn failure_not_stronger_than(&self, success: AtomicOrdering) -> (r: bool)
        ensures
            r == failure_within(*self, success),
    {
        match self {
            AtomicOrdering::Relaxed => true,
            AtomicOrdering::Acquire => match success {
                AtomicOrdering::Acquire | AtomicOrdering::AcqRel | AtomicOrdering::SeqCst => true,
                _ => false,
            },
            AtomicOrdering::SeqCst => match success {
                AtomicOrdering::SeqCst => true,
                _ => false,
            },
            _ => false,
        }
    }
}

} // verus!
