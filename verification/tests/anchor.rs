use liquidation_monitor::anchor::{liquidation_price, liquidation_price_multi, max_ltv, CalcError};
use liquidation_monitor::decimal::Decimal;

#[test]
fn calculates_correct_liquidation_price() {
    let loan_amount = Decimal::new(1_200_000_000, 6);
    let bluna_collateral = Decimal::new(100_000_000, 6);
    let max_ltv = Decimal::new(6, 1);
    let liq_price = liquidation_price(&loan_amount, &bluna_collateral, &max_ltv).unwrap();
    assert_eq!(Decimal::new(20, 0), liq_price);
}

#[test]
fn calculates_correct_multicollateral_liquidation_price() {
    let loan_amount = Decimal::new(10_000_000_000, 6);
    let beth_collateral = Decimal::new(5_000_000, 6);
    let beth_price = Decimal::new(2_800_000_000, 6);
    let bluna_collateral = Decimal::new(100_000_000, 6);
    let max_ltv = Decimal::new(6, 1);
    let liq_price = liquidation_price_multi(
        &loan_amount,
        &beth_collateral,
        &beth_price,
        &bluna_collateral,
        &max_ltv,
    )
    .unwrap();
    assert_eq!(Decimal::new(267, 1), liq_price.round_dp(1));
}

#[test]
fn liquidation_price_agrees_with_rust_decimal() {
    let loan = Decimal::new(987_654_321, 6);
    let bluna = Decimal::new(12_345_678, 6);
    let ltv = max_ltv();
    let price = liquidation_price(&loan, &bluna, &ltv).unwrap();
    let expected = rust_decimal::Decimal::new(987_654_321, 6)
        / (rust_decimal::Decimal::new(12_345_678, 6) * rust_decimal::Decimal::new(6, 1));
    assert_eq!(price.mantissa(), expected.mantissa());
    assert_eq!(price.scale(), expected.scale());
}

#[test]
fn liquidation_price_multi_agrees_with_rust_decimal() {
    let loan = Decimal::new(10_000_000_000, 6);
    let beth = Decimal::new(5_000_000, 6);
    let beth_price = Decimal::new(2_800_000_000, 6);
    let bluna = Decimal::new(100_000_000, 6);
    let price = liquidation_price_multi(&loan, &beth, &beth_price, &bluna, &max_ltv()).unwrap();
    let expected = ((rust_decimal::Decimal::new(10_000_000_000, 6) / rust_decimal::Decimal::new(6, 1))
        - (rust_decimal::Decimal::new(5_000_000, 6) * rust_decimal::Decimal::new(2_800_000_000, 6)))
        / rust_decimal::Decimal::new(100_000_000, 6);
    assert_eq!(price.mantissa(), expected.mantissa());
    assert_eq!(price.scale(), expected.scale());
}

#[test]
fn liquidation_price_of_zero_collateral_is_an_error() {
    let loan = Decimal::new(1_200_000_000, 6);
    let zero = Decimal::new(0, 6);
    assert_eq!(liquidation_price(&loan, &zero, &max_ltv()), Err(CalcError::DivisionByZero));
}

#[test]
fn liquidation_price_of_zero_ratio_is_an_error() {
    let loan = Decimal::new(1_200_000_000, 6);
    let bluna = Decimal::new(100_000_000, 6);
    let zero = Decimal::new(0, 0);
    assert_eq!(liquidation_price(&loan, &bluna, &zero), Err(CalcError::DivisionByZero));
}

#[test]
fn liquidation_price_of_a_vanishing_product_is_an_error() {
    let loan = Decimal::new(1, 0);
    let tiny = Decimal::new(1, 28);
    assert_eq!(liquidation_price(&loan, &tiny, &tiny), Err(CalcError::DivisionByZero));
}

#[test]
fn liquidation_price_multi_of_zero_collateral_is_an_error() {
    let loan = Decimal::new(10_000_000_000, 6);
    let beth = Decimal::new(5_000_000, 6);
    let beth_price = Decimal::new(2_800_000_000, 6);
    let zero = Decimal::new(0, 6);
    assert_eq!(
        liquidation_price_multi(&loan, &beth, &beth_price, &zero, &max_ltv()),
        Err(CalcError::DivisionByZero)
    );
    let bluna = Decimal::new(100_000_000, 6);
    assert_eq!(
        liquidation_price_multi(&loan, &beth, &beth_price, &bluna, &zero),
        Err(CalcError::DivisionByZero)
    );
}

#[test]
fn liquidation_price_that_does_not_fit_is_an_error() {
    let huge = Decimal::try_from_i128_with_scale(79_228_162_514_264_337_593_543_950_335, 0).unwrap();
    let small = Decimal::new(1, 10);
    let one = Decimal::new(1, 0);
    assert_eq!(liquidation_price(&huge, &small, &one), Err(CalcError::Overflow));
    assert_eq!(
        liquidation_price_multi(&huge, &huge, &huge, &one, &one),
        Err(CalcError::Overflow)
    );
}

#[test]
fn liquidation_price_multi_can_be_negative() {
    let loan = Decimal::new(600, 0);
    let beth = Decimal::new(1, 0);
    let beth_price = Decimal::new(2800, 0);
    let bluna = Decimal::new(100, 0);
    let price = liquidation_price_multi(&loan, &beth, &beth_price, &bluna, &max_ltv()).unwrap();
    assert_eq!(price, Decimal::new(-18, 0));
    assert!(!price.is_positive());
}

#[test]
fn max_ltv_is_six_tenths() {
    assert_eq!(max_ltv(), Decimal::new(6, 1));
}
