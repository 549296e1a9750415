//! The price of the primary collateral at which a loan becomes liquidatable.

use vstd::prelude::*;
use crate::decimal::{Decimal, DecimalValue, difference, product, quotient};

verus! {

/// Why a liquidation price could not be computed.
#[derive(Clone, Copy, Debug, PartialEq, Eq, Structural)]
pub enum CalcError {
    /// The collateral, the maximum loan-to-value ratio or their product is zero.
    DivisionByZero,
    /// An intermediate result does not fit a decimal.
    Overflow,
}

/// `loan_amount / (bluna_collateral * max_ltv)` in decimal arithmetic.
pub open spec fn liquidation_price_spec(
    loan_amount: DecimalValue,
    bluna_collateral: DecimalValue,
    max_ltv: DecimalValue,
) -> Result<DecimalValue, CalcError> {
    if bluna_collateral.mantissa == 0 || max_ltv.mantissa == 0 {
        Err(CalcError::DivisionByZero)
    } else {
        match product(bluna_collateral, max_ltv) {
            None => Err(CalcError::Overflow),
            Some(limit) => if limit.mantissa == 0 {
                Err(CalcError::DivisionByZero)
            } else {
                match quotient(loan_amount, limit) {
                    None => Err(CalcError::Overflow),
                    Some(price) => Ok(price),
                }
            },
        }
    }
}

/// `((loan_amount / max_ltv) - beth_collateral * beth_price) / bluna_collateral`
/// in decimal arithmetic.
pub open spec fn liquidation_price_multi_spec(
    loan_amount: DecimalValue,
    beth_collateral: DecimalValue,
    beth_price: DecimalValue,
    bluna_collateral: DecimalValue,
    max_ltv: DecimalValue,
) -> Result<DecimalValue, CalcError> {
    if bluna_collateral.mantissa == 0 || max_ltv.mantissa == 0 {
        Err(CalcError::DivisionByZero)
    } else {
        match quotient(loan_amount, max_ltv) {
            None => Err(CalcError::Overflow),
            Some(required) => match product(beth_collateral, beth_price) {
                None => Err(CalcError::Overflow),
                Some(covered) => match difference(required, covered) {
                    None => Err(CalcError::Overflow),
                    Some(rest) => match quotient(rest, bluna_collateral) {
                        None => Err(CalcError::Overflow),
                        Some(price) => Ok(price),
                    },
                },
            },
        }
    }
}

/// The maximum loan-to-value ratio of the market: `0.6`.
pub open spec fn max_ltv_spec() -> DecimalValue {
    DecimalValue { mantissa: 6, scale: 1 }
}

/// The maximum loan-to-value ratio of the market.
pub fn max_ltv() -> (ltv: Decimal)
    ensures
        ltv@ == max_ltv_spec(),
{
    Decimal::new(6, 1)
}

/// The content of a computed price.
pub open spec fn price_value(r: Result<Decimal, CalcError>) -> Result<DecimalValue, CalcError> {
    match r {
        Ok(price) => Ok(price@),
        Err(e) => Err(e),
    }
}

/// Calculates the liquidation price from the amount of bLUNA collateral.
pub fn liquidation_price(
    loan_amount: &Decimal,
    bluna_collateral: &Decimal,
    max_ltv: &Decimal,
) -> (r: Result<Decimal, CalcError>)
    ensures
        price_value(r) == liquidation_price_spec(loan_amount@, bluna_collateral@, max_ltv@),
{
    if bluna_collateral.is_zero() || max_ltv.is_zero() {
        return Err(CalcError::DivisionByZero);
    }
    match bluna_collateral.checked_mul(*max_ltv) {
        None => Err(CalcError::Overflow),
        Some(limit) => {
            if limit.is_zero() {
                Err(CalcError::DivisionByZero)
            } else {
                match loan_amount.checked_div(limit) {
                    None => Err(CalcError::Overflow),
                    Some(price) => Ok(price),
                }
            }
        },
    }
}

/// A variation of [`liquidation_price`] that also takes bETH collateral into
/// account, at a given bETH price.
pub fn liquidation_price_multi(
    loan_amount: &Decimal,
    beth_collateral: &Decimal,
    beth_price: &Decimal,
    bluna_collateral: &Decimal,
    max_ltv: &Decimal,
) -> (r: Result<Decimal, CalcError>)
    ensures
        price_value(r) == liquidation_price_multi_spec(
            loan_amount@,
            beth_collateral@,
            beth_price@,
            bluna_collateral@,
            max_ltv@,
        ),
{
    if bluna_collateral.is_zero() || max_ltv.is_zero() {
        return Err(CalcError::DivisionByZero);
    }
    let required = match loan_amount.checked_div(*max_ltv) {
        None => { return Err(CalcError::Overflow); },
        Some(d) => d,
    };
    let covered = match beth_collateral.checked_mul(*beth_price) {
        None => { return Err(CalcError::Overflow); },
        Some(d) => d,
    };
    let rest = match required.checked_sub(covered) {
        None => { return Err(CalcError::Overflow); },
        Some(d) => d,
    };
    match rest.checked_div(*bluna_collateral) {
        None => Err(CalcError::Overflow),
        Some(price) => Ok(price),
    }
}

} // verus!
