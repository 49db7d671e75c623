//! Semantic checking support for the Kern compiler: the type registry, the
//! compile-time constant evaluator, and the checks applied to casts,
//! coercions and compiler intrinsics.

pub mod types;
pub mod subst;
pub mod traits;
pub mod lookup;
pub mod ptr_casts;
pub mod coerce;
pub mod arith;
pub mod value;
pub mod ast;
pub mod context;
pub mod eval_state;
pub mod eval_spec;
pub mod eval;
pub mod intrinsic;
pub mod checker;
pub mod simd;
pub mod atomic;
pub mod typeops;
pub mod inline_asm;
pub mod coercion;
pub mod infer;
pub mod signature;
pub mod call;
pub mod cast;
pub mod access;
pub mod bit_intrinsics;
pub mod laws;
pub mod op_laws;
