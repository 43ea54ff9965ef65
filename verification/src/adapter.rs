//! The pure part of translating a caller-facing quote request into the
//! solver's convention: the unsigned requested amount and the trade mode
//! become one signed amount, and the default boundary price is chosen for
//! the direction. Reading market accounts and assembling the caller-facing
//! quote stay outside the library.

use vstd::prelude::*;
use crate::errors::SwapMathError;

verus! {

/// The default boundary price of a buy: far enough that it never binds
/// before the curve's own configured bound.
pub const FAR_SQRT_PRICE: u128 = u128::MAX / 2;

/// Turns a requested amount and mode into the solver's signed amount, and
/// picks the boundary price: the curve's configured lower bound when
/// selling asset 0, an unreachable cap otherwise. Amounts above `i64::MAX`
/// cannot be represented and are rejected.
pub fn quote_args(amount: u64, exact_in: bool, zero_for_one: bool, sqrt_price_lower: u128) -> (r:
    Result<(i64, u128), SwapMathError>)
    ensures
        match r {
            Ok(t) => {
                &&& amount <= i64::MAX
                &&& t.0 == if exact_in {
                    amount as int
                } else {
                    -(amount as int)
                }
                &&& t.1 == if zero_for_one {
                    sqrt_price_lower as int
                } else {
                    FAR_SQRT_PRICE as int
                }
            },
            Err(e) => amount > i64::MAX && e == SwapMathError::AmountOverflow,
        },
{
    if amount > 0x7FFF_FFFF_FFFF_FFFF {
        return Err(SwapMathError::AmountOverflow);
    }
    let signed: i64 = if exact_in {
        amount as i64
    } else {
        -(amount as i64)
    };
    let limit: u128 = if zero_for_one {
        sqrt_price_lower
    } else {
        FAR_SQRT_PRICE
    };
    Ok((signed, limit))
}

} // verus!
