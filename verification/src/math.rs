//! Exact scaled multiply-divide over 256-bit operands, with two rounding
//! policies.
//!
//! Amounts owed to the pool round up, so that truncation can never short
//! the pool; amounts owed to the trader round down. Every caller picks the
//! policy matching who bears the rounding error.

use vstd::prelude::*;
use crate::errors::SwapMathError;
use crate::wide::{Wide, mul_div_floor_raw, rem_raw};

verus! {

/// What `mul_div` returns: the floor of `x * y / d`, `DivisionByZero` when
/// `d` is zero, and `AmountOverflow` when the quotient does not fit the
/// 128-bit result width.
pub open spec fn mul_div_spec(x: int, y: int, d: int) -> Result<int, SwapMathError> {
    if d == 0 {
        Err(SwapMathError::DivisionByZero)
    } else if x * y / d > u128::MAX {
        Err(SwapMathError::AmountOverflow)
    } else {
        Ok(x * y / d)
    }
}

/// What `mul_div_round_up` returns: the quotient of `mul_div`, raised by
/// one whenever `x` is not a multiple of `d`; the raise itself is
/// overflow-checked.
pub open spec fn mul_div_round_up_spec(x: int, y: int, d: int) -> Result<int, SwapMathError> {
    match mul_div_spec(x, y, d) {
        Ok(q) => if x % d == 0 {
            Ok(q)
        } else if q == u128::MAX {
            Err(SwapMathError::AmountOverflow)
        } else {
            Ok(q + 1)
        },
        Err(e) => Err(e),
    }
}

/// Holds when an executable `Result` carrying a 128-bit value agrees with
/// a specification-level `Result` carrying the mathematical value.
pub open spec fn matches_u128(r: Result<u128, SwapMathError>, s: Result<int, SwapMathError>) -> bool {
    match r {
        Ok(v) => s == Ok::<int, SwapMathError>(v as int),
        Err(e) => s == Err::<int, SwapMathError>(e),
    }
}

/// The floor of `x * y / d` over arbitrarily wide intermediates: the
/// product never truncates before the division.
pub fn mul_div(x: &Wide, y: &Wide, d: &Wide) -> (r: Result<u128, SwapMathError>)
    ensures
        matches_u128(r, mul_div_spec(x.val(), y.val(), d.val())),
{
    if d.is_zero() {
        return Err(SwapMathError::DivisionByZero);
    }
    proof {
        vstd::arithmetic::div_mod::lemma_div_pos_is_pos(x.val() * y.val(), d.val());
        vstd::arithmetic::mul::lemma_mul_nonnegative(x.val(), y.val());
    }
    match mul_div_floor_raw(x, y, d) {
        Some(q) => Ok(q),
        None => Err(SwapMathError::AmountOverflow),
    }
}

/// Same as `mul_div` but rounds the quotient up whenever `x mod d` is not
/// zero, failing with `AmountOverflow` when the raised quotient does not
/// fit.
pub fn mul_div_round_up(x: &Wide, y: &Wide, d: &Wide) -> (r: Result<u128, SwapMathError>)
    ensures
        matches_u128(r, mul_div_round_up_spec(x.val(), y.val(), d.val())),
{
    match mul_div(x, y, d) {
        Ok(q) => {
            let rem = rem_raw(x, d);
            if rem.is_zero() {
                Ok(q)
            } else if q == u128::MAX {
                Err(SwapMathError::AmountOverflow)
            } else {
                Ok(q + 1)
            }
        },
        Err(e) => Err(e),
    }
}

} // verus!
