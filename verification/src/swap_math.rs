//! Amount/price conversions and the swap-step solver.
//!
//! Prices are square roots of the true exchange rate scaled by 2^96 and
//! held in 128 bits; liquidity is a 128-bit magnitude held constant over
//! one computation. A signed requested amount selects the mode: positive
//! consumes at most that much input (exact-in), negative produces exactly
//! that much output (exact-out). The solver never moves the price past the
//! given boundary price.

use vstd::prelude::*;
use vstd::arithmetic::div_mod::{
    lemma_div_by_multiple, lemma_div_is_ordered, lemma_hoist_over_denominator,
    lemma_div_nonincreasing, lemma_mod_multiples_vanish,
};
use vstd::arithmetic::mul::{
    lemma_mul_inequality,
    lemma_mul_nonnegative, lemma_mul_unary_negation, lemma_mul_upper_bound,
};
use crate::errors::SwapMathError;
use crate::math::{matches_u128, mul_div, mul_div_round_up, mul_div_round_up_spec, mul_div_spec};
use crate::wide::{pow2_128, pow2_256, Wide, PRICE_SCALE};

verus! {

/// The fee denominator: fee rates are parts per million.
pub const MAX_FEE_U128: u128 = 1_000_000;

/// The binary exponent of the square-root price scale: prices carry
/// ninety-six fractional bits.
pub const SQRT_PRICE_SHIFT: usize = 96;

/// The smaller of two prices.
pub open spec fn price_lo(a: int, b: int) -> int {
    if a < b {
        a
    } else {
        b
    }
}

/// The larger of two prices.
pub open spec fn price_hi(a: int, b: int) -> int {
    if a < b {
        b
    } else {
        a
    }
}

/// What `get_amount_0` returns: the asset-0 amount spanned by the price
/// interval, `liquidity * 2^96 * (hi - lo) / (lo * hi)`, rounded by the
/// rule of `mul_div_round_up` when `adding` and down otherwise.
pub open spec fn amount_0_spec(pa: int, pb: int, l: int, adding: bool) -> Result<
    int,
    SwapMathError,
> {
    let lo = price_lo(pa, pb);
    let hi = price_hi(pa, pb);
    if adding {
        mul_div_round_up_spec(l * PRICE_SCALE, hi - lo, lo * hi)
    } else {
        mul_div_spec(l * PRICE_SCALE, hi - lo, lo * hi)
    }
}

/// What `get_amount_1` returns: the asset-1 amount spanned by the price
/// interval, `liquidity * (hi - lo) / 2^96`, as a ceiling when `adding`
/// and a floor otherwise.
pub open spec fn amount_1_spec(pa: int, pb: int, l: int, adding: bool) -> Result<
    int,
    SwapMathError,
> {
    let diff = price_hi(pa, pb) - price_lo(pa, pb);
    let q = l * diff / PRICE_SCALE as int;
    let v = if adding && l * diff % PRICE_SCALE as int != 0 {
        q + 1
    } else {
        q
    };
    if v > u128::MAX {
        Err(SwapMathError::AmountOverflow)
    } else {
        Ok(v)
    }
}

/// What `get_next_sqrt_ratio_from_amount_0` returns: the price after a
/// signed asset-0 delta, `l * 2^96 * price / (l * 2^96 + delta * price)`,
/// rounded up so the caller can never supply less than the invariant owes.
pub open spec fn next_from_0_spec(p: int, l: int, a0: int) -> Result<int, SwapMathError> {
    if a0 == 0 {
        Ok(p)
    } else {
        let denom = l * PRICE_SCALE + a0 * p;
        if a0 < 0 && denom < 0 {
            Err(SwapMathError::AmountUnderflow)
        } else {
            mul_div_round_up_spec(l * PRICE_SCALE, p, denom)
        }
    }
}

/// What `get_next_sqrt_ratio_from_amount_1` returns: the price after a
/// signed asset-1 delta, `(price * l + delta * 2^96) / l`, floored.
pub open spec fn next_from_1_spec(p: int, l: int, a1: int) -> Result<int, SwapMathError> {
    let num = p * l + a1 * PRICE_SCALE;
    if a1 > 0 && num >= pow2_256() {
        Err(SwapMathError::AmountOverflow)
    } else if a1 <= 0 && num < 0 {
        Err(SwapMathError::AmountUnderflow)
    } else if l == 0 {
        Err(SwapMathError::DivisionByZero)
    } else if num / l > u128::MAX {
        Err(SwapMathError::PriceOverflow)
    } else {
        Ok(num / l)
    }
}

/// The conversion that plays the input role for a direction: asset 0 when
/// selling asset 0 for asset 1, asset 1 otherwise.
pub open spec fn amount_in_spec(zero_for_one: bool, pa: int, pb: int, l: int, adding: bool) -> Result<
    int,
    SwapMathError,
> {
    if zero_for_one {
        amount_0_spec(pa, pb, l, adding)
    } else {
        amount_1_spec(pa, pb, l, adding)
    }
}

/// The conversion that plays the output role for a direction.
pub open spec fn amount_out_spec(zero_for_one: bool, pa: int, pb: int, l: int, adding: bool) -> Result<
    int,
    SwapMathError,
> {
    if zero_for_one {
        amount_1_spec(pa, pb, l, adding)
    } else {
        amount_0_spec(pa, pb, l, adding)
    }
}

/// An overflow while probing the amount needed to reach the boundary price
/// means the boundary cannot be reached: the cap is taken as unbounded
/// rather than an error. Every other error stands.
pub open spec fn capped_probe(r: Result<int, SwapMathError>) -> Result<int, SwapMathError> {
    match r {
        Ok(v) => Ok(v),
        Err(e) => if e == SwapMathError::AmountOverflow {
            Ok(u128::MAX as int)
        } else {
            Err(e)
        },
    }
}

/// Ceiling division for nonnegative operands.
pub open spec fn div_ceil_spec(a: int, b: int) -> int {
    a / b + if a % b == 0 {
        0int
    } else {
        1int
    }
}

/// Last step of every filled branch: the produced amount is derived from
/// the actual price movement, rounded down, and downcast to 64 bits.
pub open spec fn finish_with_out_spec(
    zfo: bool,
    p: int,
    np: int,
    l: int,
    ain: int,
    fee_amt: int,
) -> Result<(int, int, int, int), SwapMathError> {
    match amount_out_spec(zfo, p, np, l, false) {
        Ok(aout) => if aout > u64::MAX {
            Err(SwapMathError::AmountOutOverflow)
        } else {
            Ok((np, ain, aout, fee_amt))
        },
        Err(e) => Err(e),
    }
}

/// Exact-in when the boundary price is out of reach: the new price is
/// solved directly from the fee-adjusted offered amount, the settled input
/// is recomputed from the actual price movement, and the fee is the
/// residual of the offer.
pub open spec fn exact_in_unbounded_spec(
    zfo: bool,
    p: int,
    l: int,
    delta: int,
    available: int,
) -> Result<(int, int, int, int), SwapMathError> {
    let npr = if zfo {
        next_from_0_spec(p, l, available)
    } else {
        next_from_1_spec(p, l, available)
    };
    match npr {
        Err(e) => Err(e),
        Ok(np) => match amount_in_spec(zfo, p, np, l, true) {
            Err(e) => Err(e),
            Ok(ain) => if ain > u64::MAX {
                Err(SwapMathError::AmountInOverflow)
            } else if ain > delta {
                Err(SwapMathError::AmountUnderflow)
            } else {
                finish_with_out_spec(zfo, p, np, l, ain, delta - ain)
            },
        },
    }
}

/// Exact-in when the boundary price is reached: the settled input is the
/// capped amount and the fee is recomputed precisely from it.
pub open spec fn exact_in_capped_spec(
    zfo: bool,
    p: int,
    target: int,
    l: int,
    fee: int,
    fee_inverse: int,
    max_in: int,
) -> Result<(int, int, int, int), SwapMathError> {
    if fee_inverse == 0 {
        Err(SwapMathError::DivisionByZero)
    } else {
        let fee_amt = div_ceil_spec(max_in * fee, fee_inverse);
        if fee_amt > u64::MAX {
            Err(SwapMathError::FeeAmountOverflow)
        } else {
            finish_with_out_spec(zfo, p, target, l, max_in, fee_amt)
        }
    }
}

/// Exact-out tail: the settled input is derived from the price movement,
/// rounded up, and the fee is added on top of it so the requested output
/// is produced in full.
pub open spec fn exact_out_finish_spec(
    zfo: bool,
    p: int,
    np: int,
    l: int,
    aout: int,
    fee: int,
) -> Result<(int, int, int, int), SwapMathError> {
    match amount_in_spec(zfo, p, np, l, true) {
        Err(e) => Err(e),
        Ok(ain) => if ain > u64::MAX {
            Err(SwapMathError::AmountInOverflow)
        } else if fee > MAX_FEE_U128 {
            Err(SwapMathError::AmountUnderflow)
        } else if fee == MAX_FEE_U128 {
            Err(SwapMathError::DivisionByZero)
        } else {
            let fee_amt = div_ceil_spec(ain * fee, MAX_FEE_U128 - fee);
            if fee_amt > u64::MAX {
                Err(SwapMathError::FeeAmountOverflow)
            } else {
                Ok((np, ain, aout, fee_amt))
            }
        },
    }
}

/// What `get_delta_amounts` returns for every input: the direction is
/// derived from the boundary price, the sign of the requested amount
/// selects exact-in or exact-out, and a boundary out of reach caps
/// nothing.
pub open spec fn swap_step_spec(p: int, target: int, l: int, delta: int, fee: int) -> Result<
    (int, int, int, int),
    SwapMathError,
> {
    let zfo = target < p;
    if delta > 0 {
        if fee > MAX_FEE_U128 {
            Err(SwapMathError::AmountUnderflow)
        } else {
            let fee_inverse = MAX_FEE_U128 - fee;
            let available = fee_inverse * delta / MAX_FEE_U128 as int;
            match capped_probe(amount_in_spec(zfo, p, target, l, true)) {
                Err(e) => Err(e),
                Ok(max_in) => if max_in > available {
                    exact_in_unbounded_spec(zfo, p, l, delta, available)
                } else {
                    exact_in_capped_spec(zfo, p, target, l, fee, fee_inverse, max_in)
                },
            }
        }
    } else if delta == 0 {
        Ok((p, 0, 0, 0))
    } else {
        let requested = -delta;
        match capped_probe(amount_out_spec(zfo, p, target, l, false)) {
            Err(e) => Err(e),
            Ok(max_out) => if max_out > requested {
                let npr = if zfo {
                    next_from_1_spec(p, l, delta)
                } else {
                    next_from_0_spec(p, l, delta)
                };
                match npr {
                    Err(e) => Err(e),
                    Ok(np) => exact_out_finish_spec(zfo, p, np, l, requested, fee),
                }
            } else {
                exact_out_finish_spec(zfo, p, target, l, max_out, fee)
            },
        }
    }
}

/// Holds when an executable quote result agrees with the specification-level
/// one: same error, or same new price, input, output and fee.
pub open spec fn matches_step(
    r: Result<(u128, u64, u64, u64), SwapMathError>,
    s: Result<(int, int, int, int), SwapMathError>,
) -> bool {
    match r {
        Ok(t) => s == Ok::<(int, int, int, int), SwapMathError>(
            (t.0 as int, t.1 as int, t.2 as int, t.3 as int),
        ),
        Err(e) => s == Err::<(int, int, int, int), SwapMathError>(e),
    }
}

/// The magnitude of a signed 64-bit amount.
fn abs_i64(x: i64) -> (r: u64)
    ensures
        r == if x >= 0 {
            x as int
        } else {
            -(x as int)
        },
{
    if x >= 0 {
        x as u64
    } else if x == i64::MIN {
        9223372036854775808u64
    } else {
        (-x) as u64
    }
}

/// Asset-0 amount spanned by a price interval. The two prices may come in
/// either order; the result is returned in 128 bits because a far price
/// limit can make it exceed 64 bits, and is downcast by the solver only
/// where needed.
pub fn get_amount_0(sqrt_price_a: u128, sqrt_price_b: u128, liquidity: u128, adding: bool) -> (r:
    Result<u128, SwapMathError>)
    ensures
        matches_u128(
            r,
            amount_0_spec(sqrt_price_a as int, sqrt_price_b as int, liquidity as int, adding),
        ),
{
    let (lo_p, hi_p) = if sqrt_price_a < sqrt_price_b {
        (sqrt_price_a, sqrt_price_b)
    } else {
        (sqrt_price_b, sqrt_price_a)
    };
    let diff = hi_p - lo_p;
    let x = Wide::shl96(liquidity);
    let y = Wide::from_u128(diff);
    let d = Wide::mul_u128(lo_p, hi_p);
    if adding {
        mul_div_round_up(&x, &y, &d)
    } else {
        mul_div(&x, &y, &d)
    }
}

/// Asset-1 amount spanned by a price interval: the scaled liquidity times
/// the price difference, shifted back out of the 96-bit scale.
pub fn get_amount_1(sqrt_price_a: u128, sqrt_price_b: u128, liquidity: u128, adding: bool) -> (r:
    Result<u128, SwapMathError>)
    ensures
        matches_u128(
            r,
            amount_1_spec(sqrt_price_a as int, sqrt_price_b as int, liquidity as int, adding),
        ),
{
    let (lo_p, hi_p) = if sqrt_price_a < sqrt_price_b {
        (sqrt_price_a, sqrt_price_b)
    } else {
        (sqrt_price_b, sqrt_price_a)
    };
    let diff = hi_p - lo_p;
    let prod = Wide::mul_u128(liquidity, diff);
    if prod.hi >= PRICE_SCALE {
        // the quotient alone already exceeds 128 bits
        proof {
            let b: int = prod.hi * 0x100000000;
            lemma_div_by_multiple(b, PRICE_SCALE as int);
            assert(b * PRICE_SCALE == prod.hi * pow2_128());
            lemma_div_is_ordered(b * PRICE_SCALE, prod.val(), PRICE_SCALE as int);
        }
        return Err(SwapMathError::AmountOverflow);
    }
    proof {
        lemma_hoist_over_denominator(
            prod.lo as int,
            (prod.hi * 0x100000000) as int,
            PRICE_SCALE as nat,
        );
        lemma_div_is_ordered(prod.lo as int, u128::MAX as int, PRICE_SCALE as int);
        lemma_mod_multiples_vanish(prod.hi * 0x100000000, prod.lo as int, PRICE_SCALE as int);
    }
    let q = prod.hi * 0x100000000 + prod.lo / PRICE_SCALE;
    if adding && prod.lo % PRICE_SCALE != 0 {
        if q == u128::MAX {
            Err(SwapMathError::AmountOverflow)
        } else {
            Ok(q + 1)
        }
    } else {
        Ok(q)
    }
}

/// Price after a signed asset-0 delta: positive deltas add asset 0 to the
/// reserve and push the denominator up; negative deltas pull it down,
/// failing with `AmountUnderflow` when more is withdrawn than the scaled
/// liquidity covers.
pub fn get_next_sqrt_ratio_from_amount_0(sqrt_price: u128, liquidity: u128, amount_0: i64) -> (r:
    Result<u128, SwapMathError>)
    ensures
        matches_u128(r, next_from_0_spec(sqrt_price as int, liquidity as int, amount_0 as int)),
{
    if amount_0 == 0 {
        return Ok(sqrt_price);
    }
    let lw = Wide::shl96(liquidity);
    let mag = abs_i64(amount_0);
    let ap = Wide::mul_u128(mag as u128, sqrt_price);
    proof {
        lemma_mul_upper_bound(
            mag as int,
            0x8000000000000000,
            sqrt_price as int,
            u128::MAX as int,
        );
        lemma_mul_upper_bound(liquidity as int, u128::MAX as int, PRICE_SCALE as int, PRICE_SCALE as int);
        if amount_0 < 0 {
            lemma_mul_unary_negation(mag as int, sqrt_price as int);
            assert((amount_0 as int) * sqrt_price == -(mag * sqrt_price));
        }
    }
    let denom = if amount_0 > 0 {
        match lw.checked_add(&ap) {
            Some(d) => d,
            None => {
                proof {
                    assert(false);
                }
                return Err(SwapMathError::AmountOverflow);
            },
        }
    } else {
        match lw.checked_sub(&ap) {
            Some(d) => d,
            None => {
                return Err(SwapMathError::AmountUnderflow);
            },
        }
    };
    mul_div_round_up(&lw, &Wide::from_u128(sqrt_price), &denom)
}

/// Price after a signed asset-1 delta: the scaled delta is added to (or
/// removed from) the price-times-liquidity product, and the result is
/// divided back by liquidity.
pub fn get_next_sqrt_ratio_from_amount_1(sqrt_price: u128, liquidity: u128, amount_1: i64) -> (r:
    Result<u128, SwapMathError>)
    ensures
        matches_u128(r, next_from_1_spec(sqrt_price as int, liquidity as int, amount_1 as int)),
{
    let pl = Wide::mul_u128(sqrt_price, liquidity);
    let mag = abs_i64(amount_1);
    let aw = Wide::shl96(mag as u128);
    let num = if amount_1 > 0 {
        match pl.checked_add(&aw) {
            Some(n) => n,
            None => {
                return Err(SwapMathError::AmountOverflow);
            },
        }
    } else {
        match pl.checked_sub(&aw) {
            Some(n) => n,
            None => {
                return Err(SwapMathError::AmountUnderflow);
            },
        }
    };
    if liquidity == 0 {
        return Err(SwapMathError::DivisionByZero);
    }
    proof {
        lemma_mul_nonnegative(sqrt_price as int, liquidity as int);
    }
    match mul_div(&num, &Wide::from_u128(1), &Wide::from_u128(liquidity)) {
        Ok(v) => Ok(v),
        Err(_) => Err(SwapMathError::PriceOverflow),
    }
}

/// The conversion playing the input role for the given direction.
fn get_amount_in_dir(zero_for_one: bool, pa: u128, pb: u128, l: u128, adding: bool) -> (r: Result<
    u128,
    SwapMathError,
>)
    ensures
        matches_u128(r, amount_in_spec(zero_for_one, pa as int, pb as int, l as int, adding)),
{
    if zero_for_one {
        get_amount_0(pa, pb, l, adding)
    } else {
        get_amount_1(pa, pb, l, adding)
    }
}

/// The conversion playing the output role for the given direction.
fn get_amount_out_dir(zero_for_one: bool, pa: u128, pb: u128, l: u128, adding: bool) -> (r: Result<
    u128,
    SwapMathError,
>)
    ensures
        matches_u128(r, amount_out_spec(zero_for_one, pa as int, pb as int, l as int, adding)),
{
    if zero_for_one {
        get_amount_1(pa, pb, l, adding)
    } else {
        get_amount_0(pa, pb, l, adding)
    }
}

/// Outcome of probing how much one side of the trade spans between the
/// current price and the boundary price.
enum BoundaryCap {
    /// The boundary is reachable and the probed side spans this much.
    Bounded(u128),
    /// The probed amount overflows 128 bits: the boundary cannot be
    /// reached, so the cap never binds.
    Unreachable,
}

/// Holds when a probe outcome agrees with the specification-level capped
/// probe, whose unreachable case is the saturated maximum.
spec fn matches_cap(c: Result<BoundaryCap, SwapMathError>, s: Result<int, SwapMathError>) -> bool {
    match c {
        Ok(BoundaryCap::Bounded(v)) => s == Ok::<int, SwapMathError>(v as int),
        Ok(BoundaryCap::Unreachable) => s == Ok::<int, SwapMathError>(u128::MAX as int),
        Err(e) => s == Err::<int, SwapMathError>(e),
    }
}

/// Probes the input-side amount needed to reach the boundary price,
/// reading an overflow as "the boundary cannot be reached" rather than an
/// error.
fn probe_max_amount_in(zero_for_one: bool, p: u128, target: u128, l: u128) -> (c: Result<
    BoundaryCap,
    SwapMathError,
>)
    ensures
        matches_cap(
            c,
            capped_probe(amount_in_spec(zero_for_one, p as int, target as int, l as int, true)),
        ),
{
    match get_amount_in_dir(zero_for_one, p, target, l, true) {
        Ok(v) => Ok(BoundaryCap::Bounded(v)),
        Err(SwapMathError::AmountOverflow) => Ok(BoundaryCap::Unreachable),
        Err(e) => Err(e),
    }
}

/// Probes the output-side amount obtainable before the boundary price,
/// with the same overflow reading.
fn probe_max_amount_out(zero_for_one: bool, p: u128, target: u128, l: u128) -> (c: Result<
    BoundaryCap,
    SwapMathError,
>)
    ensures
        matches_cap(
            c,
            capped_probe(amount_out_spec(zero_for_one, p as int, target as int, l as int, false)),
        ),
{
    match get_amount_out_dir(zero_for_one, p, target, l, false) {
        Ok(v) => Ok(BoundaryCap::Bounded(v)),
        Err(SwapMathError::AmountOverflow) => Ok(BoundaryCap::Unreachable),
        Err(e) => Err(e),
    }
}

/// The swap-step solver: returns the new square-root price, the amount
/// consumed, the amount produced and the fee charged for a requested trade
/// against constant liquidity, never moving the price past
/// `target_sqrt_price`.
///
/// A positive `delta_amount` offers at most that much of the input asset
/// (exact-in, fee deducted from the offer); a negative one demands exactly
/// that much of the output asset (exact-out, fee added on top); zero is a
/// no-op. The direction is derived: the trade sells asset 0 exactly when
/// the boundary lies below the current price.
pub fn get_delta_amounts(
    sqrt_price: u128,
    target_sqrt_price: u128,
    liquidity: u128,
    delta_amount: i64,
    fee: u32,
) -> (r: Result<(u128, u64, u64, u64), SwapMathError>)
    ensures
        matches_step(
            r,
            swap_step_spec(
                sqrt_price as int,
                target_sqrt_price as int,
                liquidity as int,
                delta_amount as int,
                fee as int,
            ),
        ),
        delta_amount == 0 ==> r == Ok::<(u128, u64, u64, u64), SwapMathError>(
            (sqrt_price, 0u64, 0u64, 0u64),
        ),
{
    let zero_for_one = target_sqrt_price < sqrt_price;

    if delta_amount > 0 {
        let delta = delta_amount as u64;
        let fee_u = fee as u128;
        if fee_u > MAX_FEE_U128 {
            return Err(SwapMathError::AmountUnderflow);
        }
        let fee_inverse: u128 = MAX_FEE_U128 - fee_u;
        proof {
            lemma_mul_upper_bound(fee_inverse as int, 1_000_000, delta as int, u64::MAX as int);
        }
        let amount_in_available: u128 = fee_inverse * (delta as u128) / MAX_FEE_U128;
        proof {
            lemma_mul_inequality(fee_inverse as int, 1_000_000, delta as int);
            lemma_div_is_ordered(
                fee_inverse * (delta as int),
                1_000_000 * (delta as int),
                1_000_000,
            );
            lemma_div_by_multiple(delta as int, 1_000_000);
            assert(amount_in_available <= delta);
        }

        let max_in_cap = match probe_max_amount_in(
            zero_for_one,
            sqrt_price,
            target_sqrt_price,
            liquidity,
        ) {
            Ok(c) => c,
            Err(e) => {
                return Err(e);
            },
        };

        let capped_at: Option<u128> = match max_in_cap {
            BoundaryCap::Bounded(m) => if m <= amount_in_available {
                Some(m)
            } else {
                None
            },
            BoundaryCap::Unreachable => None,
        };

        if capped_at.is_none() {
            // the boundary price is out of reach: solve the price directly
            // from the fee-adjusted offer
            let avail_i64: i64 = amount_in_available as i64;
            let new_sqrt_price = if zero_for_one {
                match get_next_sqrt_ratio_from_amount_0(sqrt_price, liquidity, avail_i64) {
                    Ok(v) => v,
                    Err(e) => {
                        return Err(e);
                    },
                }
            } else {
                match get_next_sqrt_ratio_from_amount_1(sqrt_price, liquidity, avail_i64) {
                    Ok(v) => v,
                    Err(e) => {
                        return Err(e);
                    },
                }
            };
            let amount_in_wide = match get_amount_in_dir(
                zero_for_one,
                sqrt_price,
                new_sqrt_price,
                liquidity,
                true,
            ) {
                Ok(v) => v,
                Err(e) => {
                    return Err(e);
                },
            };
            if amount_in_wide > u64::MAX as u128 {
                return Err(SwapMathError::AmountInOverflow);
            }
            let amount_in = amount_in_wide as u64;
            if amount_in > delta {
                return Err(SwapMathError::AmountUnderflow);
            }
            let fee_amount = delta - amount_in;
            let amount_out_wide = match get_amount_out_dir(
                zero_for_one,
                sqrt_price,
                new_sqrt_price,
                liquidity,
                false,
            ) {
                Ok(v) => v,
                Err(e) => {
                    return Err(e);
                },
            };
            if amount_out_wide > u64::MAX as u128 {
                return Err(SwapMathError::AmountOutOverflow);
            }
            Ok((new_sqrt_price, amount_in, amount_out_wide as u64, fee_amount))
        } else {
            // the boundary price is reached: cap the input there and
            // recompute the fee precisely from the capped amount
            let max_amount_in = capped_at.unwrap();
            if fee_inverse == 0 {
                return Err(SwapMathError::DivisionByZero);
            }
            let amount_in = max_amount_in as u64;
            proof {
                lemma_mul_upper_bound(max_amount_in as int, u64::MAX as int, fee_u as int, 1_000_000);
                lemma_div_nonincreasing(max_amount_in * fee_u, fee_inverse as int);
            }
            let prod: u128 = max_amount_in * fee_u;
            let fee_wide: u128 = prod / fee_inverse + (if prod % fee_inverse == 0 {
                0u128
            } else {
                1u128
            });
            if fee_wide > u64::MAX as u128 {
                return Err(SwapMathError::FeeAmountOverflow);
            }
            let fee_amount = fee_wide as u64;
            let amount_out_wide = match get_amount_out_dir(
                zero_for_one,
                sqrt_price,
                target_sqrt_price,
                liquidity,
                false,
            ) {
                Ok(v) => v,
                Err(e) => {
                    return Err(e);
                },
            };
            if amount_out_wide > u64::MAX as u128 {
                return Err(SwapMathError::AmountOutOverflow);
            }
            Ok((target_sqrt_price, amount_in, amount_out_wide as u64, fee_amount))
        }
    } else {
        if delta_amount == 0 {
            return Ok((sqrt_price, 0, 0, 0));
        }
        let amount_out_to_fill: u64 = abs_i64(delta_amount);

        let max_out_cap = match probe_max_amount_out(
            zero_for_one,
            sqrt_price,
            target_sqrt_price,
            liquidity,
        ) {
            Ok(c) => c,
            Err(e) => {
                return Err(e);
            },
        };

        let out_capped_at: Option<u128> = match max_out_cap {
            BoundaryCap::Bounded(m) => if m <= amount_out_to_fill as u128 {
                Some(m)
            } else {
                None
            },
            BoundaryCap::Unreachable => None,
        };

        let (new_sqrt_price, amount_out): (u128, u64) = match out_capped_at {
            None => {
                // the boundary price is out of reach: solve the price
                // directly from the demanded output
                let np = if zero_for_one {
                    match get_next_sqrt_ratio_from_amount_1(sqrt_price, liquidity, delta_amount) {
                        Ok(v) => v,
                        Err(e) => {
                            return Err(e);
                        },
                    }
                } else {
                    match get_next_sqrt_ratio_from_amount_0(sqrt_price, liquidity, delta_amount) {
                        Ok(v) => v,
                        Err(e) => {
                            return Err(e);
                        },
                    }
                };
                (np, amount_out_to_fill)
            },
            Some(max_amount_out) => (target_sqrt_price, max_amount_out as u64),
        };

        let amount_in_wide = match get_amount_in_dir(
            zero_for_one,
            sqrt_price,
            new_sqrt_price,
            liquidity,
            true,
        ) {
            Ok(v) => v,
            Err(e) => {
                return Err(e);
            },
        };
        if amount_in_wide > u64::MAX as u128 {
            return Err(SwapMathError::AmountInOverflow);
        }
        let amount_in = amount_in_wide as u64;
        let fee_u = fee as u128;
        if fee_u > MAX_FEE_U128 {
            return Err(SwapMathError::AmountUnderflow);
        }
        if fee_u == MAX_FEE_U128 {
            return Err(SwapMathError::DivisionByZero);
        }
        let fee_inverse = MAX_FEE_U128 - fee_u;
        proof {
            lemma_mul_upper_bound(amount_in as int, u64::MAX as int, fee_u as int, 1_000_000);
            lemma_div_nonincreasing((amount_in as u128) * fee_u, fee_inverse as int);
        }
        let prod: u128 = (amount_in as u128) * fee_u;
        let fee_wide: u128 = prod / fee_inverse + (if prod % fee_inverse == 0 {
            0u128
        } else {
            1u128
        });
        if fee_wide > u64::MAX as u128 {
            return Err(SwapMathError::FeeAmountOverflow);
        }
        Ok((new_sqrt_price, amount_in, amount_out, fee_wide as u64))
    }
}

} // verus!
