use token_mill_v2_sdk::errors::SwapMathError;
use token_mill_v2_sdk::swap_math::{
    get_amount_0, get_amount_1, get_delta_amounts, get_next_sqrt_ratio_from_amount_0,
    get_next_sqrt_ratio_from_amount_1,
};

const Q96: u128 = 79228162514264337593543950336; // 2^96
const SQRT_A: u128 = 419236029690706642379639606; // a configured curve lower bound
const FAR: u128 = u128::MAX / 2;

#[test]
fn amount_0_exact_values() {
    // liquidity * 2^96 * (2^97 - 2^96) / (2^96 * 2^97) with liquidity = 2^96
    assert_eq!(get_amount_0(Q96, 2 * Q96, Q96, false), Ok(1 << 95));
    assert_eq!(get_amount_0(Q96, 2 * Q96, Q96, true), Ok((1 << 95) + 1));
}

#[test]
fn amount_0_order_independence() {
    for adding in [false, true] {
        assert_eq!(
            get_amount_0(Q96, 2 * Q96, Q96, adding),
            get_amount_0(2 * Q96, Q96, Q96, adding)
        );
        assert_eq!(
            get_amount_1(Q96, 2 * Q96 + 1, 1000, adding),
            get_amount_1(2 * Q96 + 1, Q96, 1000, adding)
        );
    }
}

#[test]
fn amount_rounding_direction() {
    let down = get_amount_0(Q96, 3 * Q96 + 12345, 7 * Q96 + 9, false).unwrap();
    let up = get_amount_0(Q96, 3 * Q96 + 12345, 7 * Q96 + 9, true).unwrap();
    assert!(up >= down);
    let down1 = get_amount_1(Q96, 2 * Q96 + 1, 1000, false).unwrap();
    let up1 = get_amount_1(Q96, 2 * Q96 + 1, 1000, true).unwrap();
    assert!(up1 >= down1);
    assert_eq!(down1, 1000);
    assert_eq!(up1, 1001);
}

#[test]
fn amount_over_empty_interval() {
    // equal prices span nothing; the round-up rule still raises by one
    // whenever the scaled liquidity is no multiple of the denominator
    assert_eq!(get_amount_0(Q96, Q96, 3, false), Ok(0));
    assert_eq!(get_amount_0(Q96, Q96, 3, true), Ok(1));
    assert_eq!(get_amount_0(Q96, Q96, Q96, true), Ok(0));
    assert_eq!(get_amount_1(Q96, Q96, 5, true), Ok(0));
}

#[test]
fn round_trip_amount_0() {
    // solve a price from a positive asset-0 delta, recompute the amount
    // over the traversed interval: it never exceeds the delta
    let np = get_next_sqrt_ratio_from_amount_0(Q96, Q96, 1024).unwrap();
    assert_eq!(np, Q96 - 1023);
    let back = get_amount_0(Q96, np, Q96, true).unwrap();
    assert_eq!(back, 1024);
}

#[test]
fn exact_out_of_largest_magnitude() {
    // the most negative representable request demands 2^63 units out
    let r = get_delta_amounts(Q96, 2 * Q96, 1 << 70, i64::MIN, 0).unwrap();
    assert_eq!(
        r,
        (Q96 + 623843799324916044043653153, 9295997013522923650, 9223372036854775808, 0)
    );
}

#[test]
fn amount_0_zero_price_is_division_by_zero() {
    assert_eq!(get_amount_0(0, Q96, 5, false), Err(SwapMathError::DivisionByZero));
}

#[test]
fn amount_1_overflow() {
    assert_eq!(
        get_amount_1(0, u128::MAX, u128::MAX, false),
        Err(SwapMathError::AmountOverflow)
    );
}

#[test]
fn next_price_from_amount_0_exact_values() {
    // supplying asset 0 lowers the price; withdrawing raises it
    assert_eq!(get_next_sqrt_ratio_from_amount_0(Q96, Q96, 0), Ok(Q96));
    assert_eq!(get_next_sqrt_ratio_from_amount_0(Q96, Q96, 1024), Ok(Q96 - 1023));
    assert_eq!(get_next_sqrt_ratio_from_amount_0(Q96, Q96, -1024), Ok(Q96 + 1025));
}

#[test]
fn next_price_from_amount_0_underflow() {
    assert_eq!(
        get_next_sqrt_ratio_from_amount_0(Q96, 1, -(1 << 50)),
        Err(SwapMathError::AmountUnderflow)
    );
}

#[test]
fn next_price_from_amount_1_exact_values() {
    assert_eq!(get_next_sqrt_ratio_from_amount_1(Q96, Q96, 1000), Ok(Q96 + 1000));
    assert_eq!(get_next_sqrt_ratio_from_amount_1(Q96, Q96, -1000), Ok(Q96 - 1000));
    assert_eq!(get_next_sqrt_ratio_from_amount_1(Q96, Q96, 0), Ok(Q96));
}

#[test]
fn next_price_from_amount_1_errors() {
    assert_eq!(
        get_next_sqrt_ratio_from_amount_1(u128::MAX, 1, 1),
        Err(SwapMathError::PriceOverflow)
    );
    assert_eq!(
        get_next_sqrt_ratio_from_amount_1(0, 5, -1),
        Err(SwapMathError::AmountUnderflow)
    );
    assert_eq!(
        get_next_sqrt_ratio_from_amount_1(Q96, 0, 1),
        Err(SwapMathError::DivisionByZero)
    );
    assert_eq!(
        get_next_sqrt_ratio_from_amount_1(u128::MAX, u128::MAX, i64::MAX),
        Err(SwapMathError::AmountOverflow)
    );
}

#[test]
fn round_trip_amount_1() {
    // solve a price from a positive asset-1 delta, recompute the amount:
    // it comes back within liquidity / 2^96 of the delta, never above it
    let l = 3 * Q96;
    let np = get_next_sqrt_ratio_from_amount_1(Q96, l, 1000).unwrap();
    assert_eq!(np, Q96 + 333);
    let back = get_amount_1(Q96, np, l, true).unwrap();
    assert_eq!(back, 999);
    assert!(back <= 1000 && 1000 - back <= l / Q96);

    let np2 = get_next_sqrt_ratio_from_amount_1(Q96, Q96, 1000).unwrap();
    assert_eq!(get_amount_1(Q96, np2, Q96, true).unwrap(), 1000);
}

#[test]
fn no_op_swap() {
    assert_eq!(get_delta_amounts(SQRT_A, FAR, 123456, 0, 10_000), Ok((SQRT_A, 0, 0, 0)));
    assert_eq!(get_delta_amounts(Q96, Q96, 0, 0, 0), Ok((Q96, 0, 0, 0)));
}

#[test]
fn exact_in_from_curve_floor() {
    // market sitting at its configured lower bound; buy exact-in one
    // billion base units at a 1% fee with a far boundary
    let liquidity = 1000 * Q96;
    let r = get_delta_amounts(SQRT_A, FAR, liquidity, 1_000_000_000, 10_000).unwrap();
    assert_eq!(r, (419236029690706642380629606, 990_000_000, 35_357_142_857_142, 10_000_000));
    // the fee is the residual of the offer: consumed plus fee equals the offer
    assert_eq!(r.1 + r.3, 1_000_000_000);
    // and it sits within integer rounding of amount_in / 99
    assert_eq!(r.3, r.1 / 99);
}

#[test]
fn exact_in_boundary_saturation() {
    // the offer far exceeds what reaching the boundary needs: the price
    // stops exactly at the boundary and the input is capped
    let r = get_delta_amounts(Q96, Q96 + 1000, Q96, 1_000_000, 0).unwrap();
    assert_eq!(r, (Q96 + 1000, 1000, 999, 0));
    assert!(r.1 + r.3 <= 1_000_000);
}

#[test]
fn exact_in_fee_bounded() {
    let offered = 1_000_000_000;
    for fee in [0u32, 1, 9_999, 10_000, 500_000, 999_999] {
        let r = get_delta_amounts(SQRT_A, FAR, 1000 * Q96, offered, fee).unwrap();
        assert!(r.1 + r.3 <= offered as u64);
    }
}

#[test]
fn exact_out_not_reaching_boundary() {
    let r = get_delta_amounts(Q96, Q96 + 1000, Q96, -300, 10_000).unwrap();
    assert_eq!(r, (Q96 + 301, 301, 300, 4));
    // exact-out delivers exactly the requested output
    assert_eq!(r.2, 300);
}

#[test]
fn exact_out_boundary_saturation() {
    let r = get_delta_amounts(Q96, Q96 + 1000, Q96, -1_000_000_000_000_000, 10_000).unwrap();
    assert_eq!(r, (Q96 + 1000, 1000, 999, 11));
}

#[test]
fn overflow_probing_is_not_an_error() {
    // a boundary so extreme that the amount toward it overflows 128 bits:
    // the solver treats the cap as unreachable and solves from the offer
    let liquidity = 1 << 100;
    let r = get_delta_amounts(Q96, FAR, liquidity, 1000, 0).unwrap();
    assert_eq!(r, (Q96 + 62, 992, 991, 8));
}

#[test]
fn exact_in_selling_asset_0() {
    // boundary below the price: the trade sells asset 0; the offer after
    // the 1% fee does not reach the boundary, so the price is solved from
    // it and the fee is the residual of the offer
    let r = get_delta_amounts(Q96 + 1000, Q96, Q96, 400, 10_000).unwrap();
    assert_eq!(r, (Q96 + 604, 396, 396, 4));
    assert_eq!(r.1 + r.3, 400);
}

#[test]
fn exact_out_selling_asset_0() {
    let r = get_delta_amounts(Q96 + 1000, Q96, Q96, -250, 0).unwrap();
    assert_eq!(r, (Q96 + 750, 250, 250, 0));
}

#[test]
fn swap_error_variants() {
    // a fee rate above the full denominator underflows the fee inverse
    assert_eq!(
        get_delta_amounts(Q96, Q96 + 1, 1, 5, 2_000_000),
        Err(SwapMathError::AmountUnderflow)
    );
    // a zero boundary price while selling asset 0 gives a zero denominator
    assert_eq!(get_delta_amounts(Q96, 0, 1, 100, 0), Err(SwapMathError::DivisionByZero));
    // a settled input beyond 64 bits
    assert_eq!(
        get_delta_amounts(1 << 110, (1 << 110) + Q96, 1 << 65, -1_000_000_000_000, 0),
        Err(SwapMathError::AmountInOverflow)
    );
    // a produced output beyond 64 bits
    assert_eq!(
        get_delta_amounts(1 << 112, Q96, Q96, 9_000_000_000_000_000_000, 0),
        Err(SwapMathError::AmountOutOverflow)
    );
    // a fee amount beyond 64 bits
    assert_eq!(
        get_delta_amounts(Q96, 2 * Q96, 1 << 63, -i64::MAX, 999_999),
        Err(SwapMathError::FeeAmountOverflow)
    );
}
