//! Batched constraint accumulation for a STARK-style proof system.
//!
//! Many per-row polynomial constraints are folded into a few running sums by
//! Horner evaluation at verifier-supplied random challenges, so that "all
//! constraints vanish" reduces to "a few residuals vanish".  A native
//! accumulator works on concrete (packed) field values; a circuit-symbolic
//! twin issues the identical fold as gates of a recursive verifier circuit.

pub mod field;
pub mod packed;
pub mod consumer;
pub mod recursive;
