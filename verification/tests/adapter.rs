use token_mill_v2_sdk::adapter::{quote_args, FAR_SQRT_PRICE};
use token_mill_v2_sdk::errors::SwapMathError;
use token_mill_v2_sdk::swap_math::get_delta_amounts;

const SQRT_A: u128 = 419236029690706642379639606;

#[test]
fn quote_args_signs_and_limits() {
    assert_eq!(quote_args(100, true, false, SQRT_A), Ok((100, FAR_SQRT_PRICE)));
    assert_eq!(quote_args(100, false, false, SQRT_A), Ok((-100, FAR_SQRT_PRICE)));
    assert_eq!(quote_args(100, true, true, SQRT_A), Ok((100, SQRT_A)));
    assert_eq!(quote_args(100, false, true, SQRT_A), Ok((-100, SQRT_A)));
}

#[test]
fn quote_args_rejects_unrepresentable_amounts() {
    assert_eq!(quote_args(u64::MAX, true, false, SQRT_A), Err(SwapMathError::AmountOverflow));
    assert_eq!(quote_args(i64::MAX as u64, true, false, SQRT_A), Ok((i64::MAX, FAR_SQRT_PRICE)));
}

#[test]
fn quote_args_feed_the_solver() {
    let (delta, limit) = quote_args(1_000_000_000, true, false, SQRT_A).unwrap();
    let r = get_delta_amounts(SQRT_A, limit, 1000 * (1u128 << 96), delta, 10_000).unwrap();
    assert_eq!(r.1 + r.3, 1_000_000_000);
}
