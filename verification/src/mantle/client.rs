//! Reading a borrower's position out of the answers of the market's
//! contracts.

use vstd::prelude::*;
use crate::anchor;
use crate::anchor::{liquidation_price_multi_spec, liquidation_price_spec, max_ltv, max_ltv_spec, CalcError};
use crate::cache::{Loan, LoanView};
use crate::decimal::{as_value, decimal_written, Decimal, DecimalValue};
use crate::mantle::queries::{MarketBorrowerInfo, OverseerCollaterals};
use crate::mantle::Contracts;
use crate::string_map::StringMap;
use crate::text::{begins_with, parse_i64, starts_with, written_i64};

verus! {

/// Why a position could not be read.
#[derive(Debug, Clone, Copy, PartialEq, Eq, Structural)]
pub enum QueryError {
    /// The loan is not an integer in the range of `i64`.
    MalformedAmount,
    /// The amount of a collateral is not a decimal number.
    MalformedCollateral,
    /// The answers do not describe a position: the loan or the bLUNA held is
    /// missing, or an amount is malformed.
    Liquidation,
    /// The answers give no liquidation price: the loan or the bLUNA held is
    /// missing or malformed.
    LiquidationPrice,
    /// The liquidation price cannot be computed.
    Arithmetic(CalcError),
}

/// Whether a borrower's address is one of the chain.
pub open spec fn valid_borrower_spec(borrower: Seq<char>) -> bool {
    begins_with(borrower, "terra"@)
}

/// The loan of the market's answer, a number of millionths.
pub open spec fn loan_amount_spec(info: Option<MarketBorrowerInfo>) -> Result<Option<DecimalValue>, QueryError> {
    match info {
        None => Ok(None),
        Some(info) => match written_i64(info.loan_amount@) {
            Some(millionths) => Ok(Some(DecimalValue { mantissa: millionths as int, scale: 6 })),
            None => Err(QueryError::MalformedAmount),
        },
    }
}

/// The amounts of the overseer's answer by token. A pair counts under that
/// one of its first two texts that is an address, the first if both are; the
/// other is the amount. A later pair of a token replaces an earlier one.
pub open spec fn collateral_map_spec(pairs: Seq<Vec<String>>) -> Map<Seq<char>, Seq<char>>
    decreases pairs.len(),
{
    if pairs.len() == 0 {
        Map::empty()
    } else {
        let sooner = collateral_map_spec(pairs.drop_last());
        let pair = pairs.last()@;
        if pair.len() < 2 {
            sooner
        } else if begins_with(pair[0]@, "terra"@) {
            sooner.insert(pair[0]@, pair[1]@)
        } else if begins_with(pair[1]@, "terra"@) {
            sooner.insert(pair[1]@, pair[0]@)
        } else {
            sooner
        }
    }
}

/// The amount held of one token: the number that the overseer's answer
/// writes for it, its digits taken as millionths.
pub open spec fn collateral_spec(collaterals: Option<OverseerCollaterals>, token: Seq<char>) -> Result<
    Option<DecimalValue>,
    QueryError,
> {
    match collaterals {
        None => Ok(None),
        Some(c) => {
            let amounts = collateral_map_spec(c.collaterals@);
            if !amounts.contains_key(token) {
                Ok(None)
            } else {
                match as_value(decimal_written(amounts[token])) {
                    None => Err(QueryError::MalformedCollateral),
                    Some(v) => Ok(Some(DecimalValue { mantissa: v.mantissa, scale: 6 })),
                }
            }
        },
    }
}

/// The position that the answers describe: the loan, the bLUNA held and,
/// where there is any, the bETH held.
pub open spec fn loan_spec(info: Option<MarketBorrowerInfo>, collaterals: Option<OverseerCollaterals>) -> Result<
    LoanView,
    QueryError,
> {
    match (
        loan_amount_spec(info),
        collateral_spec(collaterals, Contracts::BETH@),
        collateral_spec(collaterals, Contracts::BLUNA@),
    ) {
        (Ok(Some(amount)), Ok(beth), Ok(Some(bluna))) => {
            let only_bluna = Map::<Seq<char>, DecimalValue>::empty().insert(Contracts::BLUNA@, bluna);
            Ok(
                LoanView {
                    amount,
                    collaterals: match beth {
                        Some(beth) => only_bluna.insert(Contracts::BETH@, beth),
                        None => only_bluna,
                    },
                },
            )
        },
        _ => Err(QueryError::Liquidation),
    }
}

/// The content of an optional amount or an error.
pub open spec fn amount_view(r: Result<Option<Decimal>, QueryError>) -> Result<Option<DecimalValue>, QueryError> {
    match r {
        Ok(Some(d)) => Ok(Some(d@)),
        Ok(None) => Ok(None),
        Err(e) => Err(e),
    }
}

/// The liquidation price of the position that the answers describe, from
/// its bLUNA alone.
pub open spec fn answered_price(info: Option<MarketBorrowerInfo>, collaterals: Option<OverseerCollaterals>) -> Result<
    Option<DecimalValue>,
    QueryError,
> {
    match (loan_amount_spec(info), collateral_spec(collaterals, Contracts::BLUNA@)) {
        (Ok(Some(amount)), Ok(Some(bluna))) => match liquidation_price_spec(amount, bluna, max_ltv_spec()) {
            Ok(price) => Ok(Some(price)),
            Err(e) => Err(QueryError::Arithmetic(e)),
        },
        _ => Err(QueryError::LiquidationPrice),
    }
}

/// The liquidation price of the position that the answers describe, from
/// its bLUNA and, where it holds any, its bETH at `beth_price`.
pub open spec fn answered_price_multi(
    info: Option<MarketBorrowerInfo>,
    collaterals: Option<OverseerCollaterals>,
    beth_price: DecimalValue,
) -> Result<Option<DecimalValue>, QueryError> {
    match (
        loan_amount_spec(info),
        collateral_spec(collaterals, Contracts::BETH@),
        collateral_spec(collaterals, Contracts::BLUNA@),
    ) {
        (Ok(Some(amount)), Ok(Some(beth)), Ok(Some(bluna))) => match liquidation_price_multi_spec(
            amount,
            beth,
            beth_price,
            bluna,
            max_ltv_spec(),
        ) {
            Ok(price) => Ok(Some(price)),
            Err(e) => Err(QueryError::Arithmetic(e)),
        },
        (Ok(Some(amount)), Ok(None), Ok(Some(bluna))) => match liquidation_price_spec(
            amount,
            bluna,
            max_ltv_spec(),
        ) {
            Ok(price) => Ok(Some(price)),
            Err(e) => Err(QueryError::Arithmetic(e)),
        },
        _ => Err(QueryError::Liquidation),
    }
}

/// Whether a borrower's address is one of the chain.
pub fn valid_borrower(borrower: &str) -> (valid: bool)
    ensures
        valid == valid_borrower_spec(borrower@),
{
    starts_with(borrower, "terra")
}

/// Reads the loan out of the market's answer.
pub fn parse_loan_amount(info: Option<&MarketBorrowerInfo>) -> (r: Result<Option<Decimal>, QueryError>)
    ensures
        amount_view(r) == loan_amount_spec(
            match info {
                Some(i) => Some(*i),
                None => None,
            },
        ),
{
    match info {
        None => Ok(None),
        Some(info) => match parse_i64(info.loan_amount.as_str()) {
            Some(millionths) => Ok(Some(Decimal::new(millionths, 6))),
            None => Err(QueryError::MalformedAmount),
        },
    }
}

/// Collects the amounts of the overseer's answer by token.
pub fn collateral_map(pairs: &Vec<Vec<String>>) -> (map: StringMap<String>)
    ensures
        map@ == collateral_map_spec(pairs@),
{
    let mut map: StringMap<String> = StringMap::new();
    let n = pairs.len();
    let mut i: usize = 0;
    assert(pairs@.take(0) =~= Seq::<Vec<String>>::empty());
    while i < n
        invariant
            i <= n,
            n == pairs@.len(),
            map@ == collateral_map_spec(pairs@.take(i as int)),
        decreases n - i,
    {
        assert(pairs@.take(i + 1).drop_last() =~= pairs@.take(i as int));
        assert(pairs@.take(i + 1).last() == pairs@[i as int]);
        let pair = &pairs[i];
        if pair.len() >= 2 {
            if starts_with(pair[0].as_str(), "terra") {
                map.insert(pair[0].clone(), pair[1].clone());
            } else if starts_with(pair[1].as_str(), "terra") {
                map.insert(pair[1].clone(), pair[0].clone());
            }
        }
        i += 1;
    }
    assert(pairs@.take(n as int) =~= pairs@);
    map
}

/// Reads the amount held of one token out of the overseer's answer.
pub fn parse_collateral(collaterals: Option<&OverseerCollaterals>, collateral_addr: &str) -> (r: Result<
    Option<Decimal>,
    QueryError,
>)
    ensures
        amount_view(r) == collateral_spec(
            match collaterals {
                Some(c) => Some(*c),
                None => None,
            },
            collateral_addr@,
        ),
{
    match collaterals {
        None => Ok(None),
        Some(c) => {
            let amounts = collateral_map(&c.collaterals);
            match amounts.get(collateral_addr) {
                None => Ok(None),
                Some(text) => match Decimal::from_str(text.as_str()) {
                    None => Err(QueryError::MalformedCollateral),
                    Some(d) => Ok(Some(d.millionths())),
                },
            }
        },
    }
}

/// Reads a borrower's position out of the answers of the market and the
/// overseer.
pub fn parse_loan(info: Option<&MarketBorrowerInfo>, collaterals: Option<&OverseerCollaterals>) -> (r: Result<
    Loan,
    QueryError,
>)
    ensures
        match r {
            Ok(loan) => loan_spec(
                match info {
                    Some(i) => Some(*i),
                    None => None,
                },
                match collaterals {
                    Some(c) => Some(*c),
                    None => None,
                },
            ) == Ok::<LoanView, QueryError>(loan@),
            Err(e) => loan_spec(
                match info {
                    Some(i) => Some(*i),
                    None => None,
                },
                match collaterals {
                    Some(c) => Some(*c),
                    None => None,
                },
            ) == Err::<LoanView, QueryError>(e),
        },
{
    let loan_amount = parse_loan_amount(info);
    let beth_collateral = parse_collateral(collaterals, Contracts::BETH);
    let bluna_collateral = parse_collateral(collaterals, Contracts::BLUNA);
    match (loan_amount, beth_collateral, bluna_collateral) {
        (Ok(Some(amount)), Ok(beth), Ok(Some(bluna))) => {
            let mut held: StringMap<Decimal> = StringMap::new();
            held.insert(Contracts::BLUNA.to_owned(), bluna);
            match beth {
                Some(beth) => {
                    held.insert(Contracts::BETH.to_owned(), beth);
                },
                None => {},
            }
            Ok(Loan { amount, collaterals: held })
        },
        _ => Err(QueryError::Liquidation),
    }
}

/// The liquidation price of the position that the answers describe, from
/// its bLUNA alone.
pub fn liquidation_price(info: Option<&MarketBorrowerInfo>, collaterals: Option<&OverseerCollaterals>) -> (r:
    Result<Option<Decimal>, QueryError>)
    ensures
        amount_view(r) == answered_price(
            match info {
                Some(i) => Some(*i),
                None => None,
            },
            match collaterals {
                Some(c) => Some(*c),
                None => None,
            },
        ),
{
    let loan_amount = parse_loan_amount(info);
    let bluna_collateral = parse_collateral(collaterals, Contracts::BLUNA);
    match (loan_amount, bluna_collateral) {
        (Ok(Some(amount)), Ok(Some(bluna))) => match anchor::liquidation_price(&amount, &bluna, &max_ltv()) {
            Ok(price) => Ok(Some(price)),
            Err(e) => Err(QueryError::Arithmetic(e)),
        },
        _ => Err(QueryError::LiquidationPrice),
    }
}

/// The liquidation price of the position that the answers describe, from
/// its bLUNA and, where it holds any, its bETH at `beth_price`.
pub fn liquidation_price_multi(
    info: Option<&MarketBorrowerInfo>,
    collaterals: Option<&OverseerCollaterals>,
    beth_price: Decimal,
) -> (r: Result<Option<Decimal>, QueryError>)
    ensures
        amount_view(r) == answered_price_multi(
            match info {
                Some(i) => Some(*i),
                None => None,
            },
            match collaterals {
                Some(c) => Some(*c),
                None => None,
            },
            beth_price@,
        ),
{
    let loan_amount = parse_loan_amount(info);
    let beth_collateral = parse_collateral(collaterals, Contracts::BETH);
    let bluna_collateral = parse_collateral(collaterals, Contracts::BLUNA);
    match (loan_amount, beth_collateral, bluna_collateral) {
        (Ok(Some(amount)), Ok(Some(beth)), Ok(Some(bluna))) => match anchor::liquidation_price_multi(
            &amount,
            &beth,
            &beth_price,
            &bluna,
            &max_ltv(),
        ) {
            Ok(price) => Ok(Some(price)),
            Err(e) => Err(QueryError::Arithmetic(e)),
        },
        (Ok(Some(amount)), Ok(None), Ok(Some(bluna))) => match anchor::liquidation_price(
            &amount,
            &bluna,
            &max_ltv(),
        ) {
            Ok(price) => Ok(Some(price)),
            Err(e) => Err(QueryError::Arithmetic(e)),
        },
        _ => Err(QueryError::Liquidation),
    }
}

} // verus!
