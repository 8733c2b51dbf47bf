//! Unit tests of the fixed-point primitives.

use weight_backtest::fixed::div_trunc;
use weight_backtest::fixed::isqrt;
use weight_backtest::fixed::mul_div;
use weight_backtest::fixed::quantum;
use weight_backtest::fixed::round_weight;

#[test]
fn truncating_division() {
    assert_eq!(div_trunc(7, 2), 3);
    assert_eq!(div_trunc(-7, 2), -3);
    assert_eq!(div_trunc(0, 5), 0);
    assert_eq!(div_trunc(-1, 1_000_000_000), 0);
}

#[test]
fn multiply_then_divide() {
    assert_eq!(mul_div(3, 5, 2), 7);
    assert_eq!(mul_div(-3, 5, 2), -7);
    assert_eq!(mul_div(1_000_000_000, 1_000_000_000, 1_000_000_000), 1_000_000_000);
}

#[test]
fn integer_square_root() {
    assert_eq!(isqrt(0), 0);
    assert_eq!(isqrt(1), 1);
    assert_eq!(isqrt(15), 3);
    assert_eq!(isqrt(16), 4);
    assert_eq!(isqrt(1_000_000_000_000_000_000), 1_000_000_000);
}

#[test]
fn rounding_quantum() {
    assert_eq!(quantum(9), 1);
    assert_eq!(quantum(0), 1_000_000_000);
    assert_eq!(quantum(2), 10_000_000);
}

#[test]
fn rounding_half_away_from_zero() {
    let q = 100_000_000i64;
    assert_eq!(round_weight(550_000_000, q), 600_000_000);
    assert_eq!(round_weight(-550_000_000, q), -600_000_000);
    assert_eq!(round_weight(549_999_999, q), 500_000_000);
    assert_eq!(round_weight(0, q), 0);
    assert_eq!(round_weight(123_456_789, 1), 123_456_789);
}
