use token_mill_v2_sdk::errors::SwapMathError;
use token_mill_v2_sdk::math::{mul_div, mul_div_round_up};
use token_mill_v2_sdk::wide::Wide;

fn w(x: u128) -> Wide {
    Wide::from_u128(x)
}

#[test]
fn mul_div_small_values() {
    assert_eq!(mul_div(&w(6), &w(7), &w(2)), Ok(21));
    assert_eq!(mul_div(&w(0), &w(7), &w(2)), Ok(0));
    assert_eq!(mul_div(&w(7), &w(7), &w(10)), Ok(4));
}

#[test]
fn mul_div_zero_denominator() {
    assert_eq!(mul_div(&w(6), &w(7), &w(0)), Err(SwapMathError::DivisionByZero));
    assert_eq!(mul_div_round_up(&w(6), &w(7), &w(0)), Err(SwapMathError::DivisionByZero));
}

#[test]
fn mul_div_wide_operands() {
    // (2^128) * 3 / 4 fits in 128 bits only after the division
    let x = Wide { hi: 1, lo: 0 };
    assert_eq!(mul_div(&x, &w(3), &w(4)), Ok(3 << 126));
    // (2^128) * 1 / 1 does not fit
    assert_eq!(mul_div(&x, &w(1), &w(1)), Err(SwapMathError::AmountOverflow));
}

#[test]
fn mul_div_round_up_rule_is_on_x() {
    // 5 * 4 / 10 is exact, but the round-up rule watches x mod d: 5 % 10 != 0
    assert_eq!(mul_div(&w(5), &w(4), &w(10)), Ok(2));
    assert_eq!(mul_div_round_up(&w(5), &w(4), &w(10)), Ok(3));
    // x divisible by d: no raise even though the quotient truncates nothing
    assert_eq!(mul_div_round_up(&w(4), &w(3), &w(2)), Ok(6));
    // inexact quotient with indivisible x raises
    assert_eq!(mul_div_round_up(&w(7), &w(1), &w(2)), Ok(4));
}

#[test]
fn mul_div_round_up_overflow_on_raise() {
    // floor is exactly u128::MAX and x mod d is not zero
    assert_eq!(mul_div(&w(u128::MAX), &w(2), &w(2)), Ok(u128::MAX));
    assert_eq!(
        mul_div_round_up(&w(u128::MAX), &w(2), &w(2)),
        Err(SwapMathError::AmountOverflow)
    );
}

#[test]
fn wide_checked_ops() {
    let a = Wide { hi: 0, lo: u128::MAX };
    assert_eq!(a.checked_add(&w(1)), Some(Wide { hi: 1, lo: 0 }));
    assert_eq!(Wide { hi: 1, lo: 0 }.checked_sub(&w(1)), Some(Wide { hi: 0, lo: u128::MAX }));
    assert_eq!(w(3).checked_sub(&w(5)), None);
    let top = Wide { hi: u128::MAX, lo: u128::MAX };
    assert_eq!(top.checked_add(&w(1)), None);
}

#[test]
fn wide_mul_and_shift() {
    let p = Wide::mul_u128(1 << 127, 4);
    assert_eq!(p, Wide { hi: 2, lo: 0 });
    let s = Wide::shl96(1 << 100);
    assert_eq!(s, Wide { hi: 1 << 68, lo: 0 });
    assert_eq!(Wide::shl96(1), Wide { hi: 0, lo: 1 << 96 });
}
