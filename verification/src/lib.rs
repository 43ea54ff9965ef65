//! Swap-math engine for a single-curve, two-asset automated market maker
//! that represents prices as square roots scaled by 2^96.
//!
//! The crate has two layers: wide-integer arithmetic primitives with
//! explicit rounding control, and a swap-step solver that computes, for a
//! requested trade bounded by a price limit, the new price, the amount
//! consumed, the amount produced, and the fee charged. Every function
//! states exactly what it returns, errors included, and the laws the
//! engine obeys are proved in the laws module.

pub mod adapter;
pub mod errors;
pub mod laws;
pub mod math;
pub mod swap_math;
pub mod wide;
