//! A supervised, fixed-cadence control-cycle engine.
//!
//! Each cycle gates on an integrity token, folds an observation into the
//! belief state, validates the state's energy, clamps it into the operator's
//! bounds, commits to it and signs it.  Double-precision values are carried
//! as IEEE 754 binary64 bit patterns and every operation on them is defined
//! and verified on those patterns.

pub mod double;
pub mod rounding;
pub mod arith;
pub mod substrate;
pub mod invariants;
pub mod hexcode;
pub mod crypto;
pub mod bounds;
pub mod rik;
pub mod ffi;
pub mod supervisor;
