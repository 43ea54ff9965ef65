//! Engine-wide laws, each proved against the specification functions that
//! the executable functions are verified to implement.

use vstd::prelude::*;
use vstd::arithmetic::div_mod::{
    lemma_div_by_multiple, lemma_div_is_ordered, lemma_div_of0, lemma_div_pos_is_pos,
    lemma_div_multiples_vanish_fancy, lemma_fundamental_div_mod, lemma_hoist_over_denominator,
    lemma_mod_division_less_than_divisor, lemma_mod_multiples_basic, lemma_mod_multiples_vanish,
    lemma_small_mod, lemma_multiply_divide_le, lemma_multiply_divide_lt,
};
use vstd::arithmetic::mul::{
    lemma_mul_is_distributive_add_other_way, lemma_mul_strict_inequality, lemma_mul_strictly_positive,
    lemma_mul_inequality, lemma_mul_is_commutative, lemma_mul_is_distributive_add, lemma_mul_is_distributive_sub,
    lemma_mul_nonnegative,
};
use crate::errors::SwapMathError;
use crate::swap_math::{
    amount_0_spec, amount_1_spec, amount_in_spec, capped_probe, exact_in_unbounded_spec,
    next_from_0_spec, next_from_1_spec, price_hi, price_lo, swap_step_spec, MAX_FEE_U128,
};
use crate::wide::PRICE_SCALE;

verus! {

/// Rounding direction: over one price interval and liquidity, the asset-0
/// amount rounded up (owed to the pool) is never below the amount rounded
/// down (owed to the trader).
pub proof fn lemma_rounding_direction_0(pa: int, pb: int, l: int)
    requires
        amount_0_spec(pa, pb, l, true) is Ok,
        amount_0_spec(pa, pb, l, false) is Ok,
    ensures
        amount_0_spec(pa, pb, l, true)->Ok_0 >= amount_0_spec(pa, pb, l, false)->Ok_0,
{
}

/// Rounding direction for the asset-1 conversion.
pub proof fn lemma_rounding_direction_1(pa: int, pb: int, l: int)
    requires
        amount_1_spec(pa, pb, l, true) is Ok,
        amount_1_spec(pa, pb, l, false) is Ok,
    ensures
        amount_1_spec(pa, pb, l, true)->Ok_0 >= amount_1_spec(pa, pb, l, false)->Ok_0,
{
}

/// Order independence: the two prices of the interval may be given in
/// either order without changing the asset-0 result.
pub proof fn lemma_order_independence_0(pa: int, pb: int, l: int, adding: bool)
    ensures
        amount_0_spec(pa, pb, l, adding) == amount_0_spec(pb, pa, l, adding),
{
}

/// Order independence for the asset-1 conversion.
pub proof fn lemma_order_independence_1(pa: int, pb: int, l: int, adding: bool)
    ensures
        amount_1_spec(pa, pb, l, adding) == amount_1_spec(pb, pa, l, adding),
{
}

/// No-op: a zero requested amount leaves the price where it is and moves
/// no asset and no fee, for every price, boundary, liquidity and fee rate.
pub proof fn lemma_no_op(p: int, target: int, l: int, fee: int)
    ensures
        swap_step_spec(p, target, l, 0, fee) == Ok::<(int, int, int, int), SwapMathError>(
            (p, 0int, 0int, 0int),
        ),
{
}

/// The fee-adjusted offer never exceeds the offer itself.
proof fn lemma_available_le_delta(fee_inverse: int, delta: int)
    requires
        0 <= fee_inverse <= 1_000_000,
        0 <= delta,
    ensures
        fee_inverse * delta / 1_000_000 <= delta,
{
    lemma_mul_inequality(fee_inverse, 1_000_000, delta);
    lemma_div_is_ordered(fee_inverse * delta, 1_000_000 * delta, 1_000_000);
    lemma_div_by_multiple(delta, 1_000_000);
}

/// Round-trip consistency for asset 1: solving the next price from a
/// positive asset-1 delta, then recomputing the amount the traversed
/// interval holds (rounded up), gives back the delta up to the price
/// grid's granularity: the recomputed amount never exceeds the delta and
/// falls short of it by at most `liquidity / 2^96`.
pub proof fn lemma_round_trip_amount_1(p: int, l: int, a1: int)
    requires
        0 < a1 <= u64::MAX,
        0 < l,
        0 <= p,
        next_from_1_spec(p, l, a1) is Ok,
    ensures
        ({
            let np = next_from_1_spec(p, l, a1)->Ok_0;
            &&& amount_1_spec(p, np, l, true) is Ok
            &&& amount_1_spec(p, np, l, true)->Ok_0 <= a1
            &&& a1 - amount_1_spec(p, np, l, true)->Ok_0 <= l / PRICE_SCALE as int
        }),
{
    let scale = PRICE_SCALE as int;
    let num = p * l + a1 * scale;
    let np = num / l;
    lemma_mul_nonnegative(p, l);
    lemma_hoist_over_denominator(a1 * scale, p, l as nat);
    let q = a1 * scale / l;
    lemma_div_pos_is_pos(a1 * scale, l);
    assert(np == p + q);
    assert(price_lo(p, np) == p);
    assert(price_hi(p, np) == np);

    lemma_fundamental_div_mod(a1 * scale, l);
    lemma_mod_division_less_than_divisor(a1 * scale, l);
    let r = a1 * scale % l;
    assert(l * q == a1 * scale - r);

    lemma_fundamental_div_mod(r, scale);
    lemma_mod_division_less_than_divisor(r, scale);
    let s = r / scale;
    let t = r % scale;

    // s <= a1: the remainder is at most the scaled delta
    lemma_mul_nonnegative(l, q);
    assert(r <= a1 * scale);
    lemma_div_is_ordered(r, a1 * scale, scale);
    lemma_div_by_multiple(a1, scale);
    assert(s <= a1);

    if t == 0 {
        assert(l * q == (a1 - s) * scale) by {
            lemma_mul_is_distributive_sub(scale, a1, s);
        }
        lemma_div_by_multiple(a1 - s, scale);
        lemma_mod_multiples_basic(a1 - s, scale);
        assert(l * q / scale == a1 - s);
        assert(l * q % scale == 0);
    } else {
        assert(s < a1);
        assert(l * q == scale * (a1 - s - 1) + (scale - t)) by {
            lemma_mul_is_distributive_sub(scale, a1, s + 1);
            lemma_mul_is_distributive_add(scale, s, 1);
        }
        lemma_div_multiples_vanish_fancy(a1 - s - 1, scale - t, scale);
        lemma_mod_multiples_vanish(a1 - s - 1, scale - t, scale);
        lemma_small_mod((scale - t) as nat, scale as nat);
        assert(l * q / scale == a1 - s - 1);
        assert(l * q % scale == scale - t);
    }

    // the recomputed ceiling is a1 - s in either case
    assert(amount_1_spec(p, np, l, true)->Ok_0 == a1 - s);

    // a1 - s differs from a1 by at most l / 2^96
    lemma_div_is_ordered(r, l, scale);
    lemma_div_pos_is_pos(r, scale);
}

/// An input-side amount that comes back without error is never negative.
proof fn lemma_amount_in_nonneg(zfo: bool, pa: int, pb: int, l: int, adding: bool)
    requires
        0 <= pa,
        0 <= pb,
        0 <= l,
        amount_in_spec(zfo, pa, pb, l, adding) is Ok,
    ensures
        amount_in_spec(zfo, pa, pb, l, adding)->Ok_0 >= 0,
{
    let lo = price_lo(pa, pb);
    let hi = price_hi(pa, pb);
    if zfo {
        lemma_mul_nonnegative(lo, hi);
        lemma_mul_nonnegative(l * PRICE_SCALE, hi - lo);
        if lo * hi != 0 {
            lemma_div_pos_is_pos(l * PRICE_SCALE * (hi - lo), lo * hi);
        }
    } else {
        lemma_mul_nonnegative(l, hi - lo);
        lemma_div_pos_is_pos(l * (hi - lo), PRICE_SCALE as int);
    }
}

/// Round-trip consistency for asset 0: solving the next price from a
/// positive asset-0 delta, then recomputing the amount the traversed
/// interval holds (rounded up), never gives back more than the delta. The
/// price moves down and the recomputed amount is what the exact-in path
/// settles, so the settled input can never exceed what was offered.
pub proof fn lemma_round_trip_amount_0(p: int, l: int, a0: int)
    requires
        0 < a0 <= u64::MAX,
        0 < l,
        0 < p,
        next_from_0_spec(p, l, a0) is Ok,
    ensures
        ({
            let np = next_from_0_spec(p, l, a0)->Ok_0;
            &&& np <= p
            &&& amount_0_spec(p, np, l, true) is Ok
            &&& amount_0_spec(p, np, l, true)->Ok_0 <= a0
        }),
{
    let scale = PRICE_SCALE as int;
    let n = l * scale;
    lemma_mul_strictly_positive(l, scale);
    lemma_mul_strictly_positive(a0, p);
    let d = n + a0 * p;
    assert(0 < n < d);

    // the scaled liquidity is never a multiple of the larger denominator,
    // so the price solved from a positive delta always rounds up
    lemma_small_mod(n as nat, d as nat);
    assert(n % d == n);
    let fl = n * p / d;
    let np = fl + 1;
    lemma_fundamental_div_mod(n * p, d);
    lemma_mod_division_less_than_divisor(n * p, d);
    assert(next_from_0_spec(p, l, a0)->Ok_0 == np);

    // np stays at or below the starting price
    lemma_mul_strict_inequality(n, d, p);
    lemma_multiply_divide_lt(n * p, d, p);
    assert(np <= p);

    // rounding up once past the exact quotient puts np * d above n * p
    assert(np * d > n * p) by {
        lemma_mul_is_distributive_add_other_way(d, fl, 1);
    }

    // hence the interval np..p spans strictly less asset 0 than a0 covers
    assert(n * (p - np) < (np * p) * a0) by (nonlinear_arith)
        requires
            np * d > n * p,
            d == n + a0 * p,
    ;

    lemma_mul_strictly_positive(np, p);
    lemma_mul_nonnegative(n, p - np);
    lemma_div_pos_is_pos(n * (p - np), np * p);
    lemma_multiply_divide_lt(n * (p - np), np * p, a0);
    assert(price_lo(p, np) == np);
    assert(price_hi(p, np) == p);
}

/// Helper: from `a <= b / c` (with `c > 0`, all nonnegative) conclude
/// `a * c <= b`.
proof fn lemma_le_div_implies_mul_le(a: int, b: int, c: int)
    requires
        0 < c,
        0 <= b,
        a <= b / c,
    ensures
        a * c <= b,
{
    lemma_fundamental_div_mod(b, c);
    lemma_mod_division_less_than_divisor(b, c);
    lemma_mul_inequality(a, b / c, c);
}

/// Fee boundedness for exact-in: whatever the branch, the settled input
/// plus the charged fee never exceeds the offered amount, and the fee is
/// never negative.
pub proof fn lemma_fee_bounded_exact_in(p: int, target: int, l: int, delta: int, fee: int)
    requires
        0 <= p,
        0 <= target,
        0 <= l,
        0 < delta,
        0 <= fee,
        swap_step_spec(p, target, l, delta, fee) is Ok,
    ensures
        ({
            let out = swap_step_spec(p, target, l, delta, fee)->Ok_0;
            &&& out.3 >= 0
            &&& out.1 + out.3 <= delta
        }),
{
    let zfo = target < p;
    let fee_inverse = MAX_FEE_U128 - fee;
    let available = fee_inverse * delta / MAX_FEE_U128 as int;
    lemma_available_le_delta(fee_inverse, delta);
    let probe = capped_probe(amount_in_spec(zfo, p, target, l, true));
    let max_in = probe->Ok_0;
    if probe is Ok && !(max_in > available) {
        // boundary reached: fee = ceil(max_in * fee / fee_inverse)
        if amount_in_spec(zfo, p, target, l, true) is Ok {
            lemma_amount_in_nonneg(zfo, p, target, l, true);
        }
        let x = max_in * fee;
        lemma_mul_nonnegative(max_in, fee);
        lemma_div_pos_is_pos(x, fee_inverse);
        let k = delta - max_in;
        // max_in * 1_000_000 <= fee_inverse * delta
        lemma_le_div_implies_mul_le(max_in, fee_inverse * delta, MAX_FEE_U128 as int);
        // x <= fee_inverse * k
        assert(x <= fee_inverse * k) by {
            lemma_mul_is_distributive_add(max_in, fee_inverse, fee);
            lemma_mul_is_distributive_sub(fee_inverse, delta, max_in);
            lemma_mul_is_commutative(max_in, fee_inverse);
            lemma_mul_is_commutative(fee_inverse, delta);
            lemma_mul_is_commutative(max_in, MAX_FEE_U128 as int);
        }
        if x % fee_inverse == 0 {
            lemma_multiply_divide_le(x, fee_inverse, k);
        } else {
            lemma_mod_multiples_basic(k, fee_inverse);
            assert(x != fee_inverse * k) by {
                lemma_mul_is_commutative(fee_inverse, k);
            }
            lemma_multiply_divide_lt(x, fee_inverse, k);
        }
    }
}

/// The settled input of an exact-in trade never exceeds the offer: for a
/// fee rate within the denominator, the residual fee subtraction can
/// never wrap, so `AmountUnderflow` (a rounding defect) is unreachable.
pub proof fn lemma_exact_in_never_underflows(p: int, target: int, l: int, delta: int, fee: int)
    requires
        0 <= target,
        0 <= p,
        0 < l,
        0 < delta <= i64::MAX,
        0 <= fee <= MAX_FEE_U128,
    ensures
        swap_step_spec(p, target, l, delta, fee) != Err::<(int, int, int, int), SwapMathError>(
            SwapMathError::AmountUnderflow,
        ),
{
    let zfo = target < p;
    let fee_inverse = MAX_FEE_U128 - fee;
    let available = fee_inverse * delta / MAX_FEE_U128 as int;
    lemma_available_le_delta(fee_inverse, delta);
    lemma_mul_nonnegative(fee_inverse, delta);
    lemma_div_pos_is_pos(fee_inverse * delta, MAX_FEE_U128 as int);
    let probe = capped_probe(amount_in_spec(zfo, p, target, l, true));
    if probe is Ok && probe->Ok_0 > available {
        if zfo {
            if available == 0 {
                assert(next_from_0_spec(p, l, 0) == Ok::<int, SwapMathError>(p));
                if p * p != 0 {
                    lemma_div_of0(p * p);
                    assert(l * PRICE_SCALE * 0 == 0);
                }
            } else if next_from_0_spec(p, l, available) is Ok {
                lemma_round_trip_amount_0(p, l, available);
            }
        } else {
            if available == 0 {
                lemma_mul_nonnegative(p, l);
                lemma_div_by_multiple(p, l);
                assert(l * 0 == 0);
                lemma_div_of0(PRICE_SCALE as int);
                lemma_small_mod(0, PRICE_SCALE as nat);
            } else if next_from_1_spec(p, l, available) is Ok {
                lemma_round_trip_amount_1(p, l, available);
            }
        }
    }
}

/// Overflow while probing the boundary is not an error: when the amount
/// needed to reach the boundary price overflows 128 bits, the solver
/// behaves exactly as if the cap were unreachable and solves the price
/// from the requested amount directly.
pub proof fn lemma_unreachable_boundary_probe(p: int, target: int, l: int, delta: int, fee: int)
    requires
        0 < delta <= i64::MAX,
        0 <= fee <= MAX_FEE_U128,
        amount_in_spec(target < p, p, target, l, true) == Err::<int, SwapMathError>(
            SwapMathError::AmountOverflow,
        ),
    ensures
        swap_step_spec(p, target, l, delta, fee) == exact_in_unbounded_spec(
            target < p,
            p,
            l,
            delta,
            (MAX_FEE_U128 - fee) * delta / MAX_FEE_U128 as int,
        ),
{
    lemma_available_le_delta(MAX_FEE_U128 - fee, delta);
}

/// Boundary saturation for exact-in: when the fee-adjusted offer covers
/// the amount needed to reach the boundary price, the returned price is
/// exactly the boundary and the settled input never exceeds the offer.
pub proof fn lemma_boundary_saturation(p: int, target: int, l: int, delta: int, fee: int)
    requires
        0 < delta,
        0 <= fee <= MAX_FEE_U128,
        capped_probe(amount_in_spec(target < p, p, target, l, true)) is Ok,
        capped_probe(amount_in_spec(target < p, p, target, l, true))->Ok_0 <= (MAX_FEE_U128 - fee)
            * delta / MAX_FEE_U128 as int,
        swap_step_spec(p, target, l, delta, fee) is Ok,
    ensures
        swap_step_spec(p, target, l, delta, fee)->Ok_0.0 == target,
        swap_step_spec(p, target, l, delta, fee)->Ok_0.1 <= delta,
{
    lemma_available_le_delta(MAX_FEE_U128 - fee, delta);
}

} // verus!
