//! Error taxonomy of the swap-math engine.
//!
//! Every error is terminal for the given input: the caller must recompute
//! with corrected inputs. No partial result is ever returned alongside one.

use vstd::prelude::*;

verus! {

/// Why a swap-math computation could not produce a result.
#[derive(Clone, Copy, Debug, PartialEq, Eq, Structural)]
pub enum SwapMathError {
    /// A denominator (total liquidity, fee-inverse term) is zero.
    DivisionByZero,
    /// A checked add/mul/cast would wrap above its width.
    AmountOverflow,
    /// A checked subtraction would wrap below zero.
    AmountUnderflow,
    /// The settled input amount does not fit the 64-bit result width.
    AmountInOverflow,
    /// The produced output amount does not fit the 64-bit result width.
    AmountOutOverflow,
    /// The fee amount does not fit the 64-bit result width.
    FeeAmountOverflow,
    /// A computed next price does not fit the 128-bit price width.
    PriceOverflow,
}

} // verus!
