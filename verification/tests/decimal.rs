use liquidation_monitor::decimal::{Decimal, MAX_MANTISSA, MAX_SCALE};

#[test]
fn new_keeps_mantissa_and_scale() {
    let d = Decimal::new(-3141, 3);
    assert_eq!(d.mantissa(), -3141);
    assert_eq!(d.scale(), 3);
}

#[test]
fn equal_numbers_of_different_scale_are_different_values() {
    assert_ne!(Decimal::new(10, 1), Decimal::new(100, 2));
    assert_eq!(Decimal::new(10, 1), Decimal::new(10, 1));
}

#[test]
fn try_from_i128_with_scale_accepts_the_whole_range() {
    let top = Decimal::try_from_i128_with_scale(MAX_MANTISSA, MAX_SCALE).unwrap();
    assert_eq!(top.mantissa(), MAX_MANTISSA);
    assert_eq!(top.scale(), 28);
    let bottom = Decimal::try_from_i128_with_scale(-MAX_MANTISSA, 0).unwrap();
    assert_eq!(bottom.mantissa(), -MAX_MANTISSA);
}

#[test]
fn try_from_i128_with_scale_refuses_what_does_not_fit() {
    assert_eq!(Decimal::try_from_i128_with_scale(MAX_MANTISSA + 1, 0), None);
    assert_eq!(Decimal::try_from_i128_with_scale(-MAX_MANTISSA - 1, 0), None);
    assert_eq!(Decimal::try_from_i128_with_scale(1, 29), None);
}

#[test]
fn zero_and_sign() {
    assert!(Decimal::new(0, 6).is_zero());
    assert!(!Decimal::new(1, 6).is_zero());
    assert!(Decimal::new(1, 6).is_positive());
    assert!(!Decimal::new(0, 6).is_positive());
    assert!(!Decimal::new(-1, 6).is_positive());
}

#[test]
fn round_dp_rounds_halves_to_even() {
    assert_eq!(Decimal::new(65, 1).round_dp(0), Decimal::new(6, 0));
    assert_eq!(Decimal::new(75, 1).round_dp(0), Decimal::new(8, 0));
    assert_eq!(Decimal::new(2665, 2).round_dp(1), Decimal::new(266, 1));
    assert_eq!(Decimal::new(2675, 2).round_dp(1), Decimal::new(268, 1));
    assert_eq!(Decimal::new(-2665, 2).round_dp(1), Decimal::new(-266, 1));
    assert_eq!(Decimal::new(-2675, 2).round_dp(1), Decimal::new(-268, 1));
}

#[test]
fn round_dp_rounds_to_the_nearest() {
    assert_eq!(Decimal::new(266_666, 4).round_dp(1), Decimal::new(267, 1));
    assert_eq!(Decimal::new(266_499, 4).round_dp(1), Decimal::new(266, 1));
    assert_eq!(Decimal::new(-266_666, 4).round_dp(1), Decimal::new(-267, 1));
    assert_eq!(Decimal::new(31_415_926, 7).round_dp(2), Decimal::new(314, 2));
    assert_eq!(Decimal::new(4, 2).round_dp(1), Decimal::new(0, 1));
    assert_eq!(Decimal::new(-4, 2).round_dp(1), Decimal::new(0, 1));
}

#[test]
fn round_dp_leaves_short_fractions_alone() {
    assert_eq!(Decimal::new(20, 0).round_dp(1), Decimal::new(20, 0));
    assert_eq!(Decimal::new(205, 1).round_dp(1), Decimal::new(205, 1));
    assert_eq!(Decimal::new(0, 6).round_dp(1), Decimal::new(0, 1));
}

#[test]
fn tenths_counts_the_rounded_number_in_tenths() {
    assert_eq!(Decimal::new(20, 0).tenths(), 200);
    assert_eq!(Decimal::new(267, 1).tenths(), 267);
    assert_eq!(Decimal::new(266_666, 4).tenths(), 267);
    assert_eq!(Decimal::new(2665, 2).tenths(), 266);
    assert_eq!(Decimal::new(-15, 0).tenths(), -150);
    assert_eq!(Decimal::new(4, 2).tenths(), 0);
    let top = Decimal::try_from_i128_with_scale(MAX_MANTISSA, 0).unwrap();
    assert_eq!(top.tenths(), MAX_MANTISSA * 10);
}

#[test]
fn millionths_keeps_the_digits() {
    assert_eq!(Decimal::new(15, 1).millionths(), Decimal::new(15, 6));
    assert_eq!(Decimal::new(1_000_000, 0).millionths(), Decimal::new(1_000_000, 6));
}
