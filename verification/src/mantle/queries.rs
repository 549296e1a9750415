//! The questions put to the market's contracts, and the shapes of their
//! answers.

use vstd::prelude::*;

verus! {

/// The arguments of the query for a borrower's loan and collateral.
#[derive(Debug)]
pub struct BorrowLiquidationPriceQueryArguments {
    pub market_contract: String,
    pub market_borrower_info_query: String,
    pub overseer_contract: String,
    pub overseer_borrowlimit_query: String,
    pub overseer_collaterals_query: String,
    pub overseer_whitelist_query: String,
    pub oracle_contract: String,
    pub oracle_price_query: String,
}

/// The borrower that a question is about.
#[derive(Default, Debug, Clone, PartialEq)]
pub struct BorrowerInfo {
    pub borrower: String,
}

/// The collateral token that a question is about.
#[derive(Default, Debug, Clone, PartialEq)]
pub struct Whitelist {
    pub collateral_token: String,
}

/// The pair of assets that a price is asked for.
#[derive(Default, Debug, Clone, PartialEq)]
pub struct Price {
    pub base: String,
    pub quote: String,
}

/// Asks the market for a borrower's loan.
#[derive(Debug, Clone, PartialEq)]
pub struct MarketBorrowerInfoQuery {
    pub borrower_info: BorrowerInfo,
}

impl MarketBorrowerInfoQuery {
    pub fn new(borrower: &str) -> (query: MarketBorrowerInfoQuery)
        ensures
            query.borrower_info.borrower@ == borrower@,
    {
        MarketBorrowerInfoQuery { borrower_info: BorrowerInfo { borrower: borrower.to_owned() } }
    }
}

/// Asks the overseer for a borrower's borrow limit.
#[derive(Debug, Clone, PartialEq)]
pub struct OverseerBorrowLimitQuery {
    pub borrow_limit: BorrowerInfo,
}

impl OverseerBorrowLimitQuery {
    pub fn new(borrower: &str) -> (query: OverseerBorrowLimitQuery)
        ensures
            query.borrow_limit.borrower@ == borrower@,
    {
        OverseerBorrowLimitQuery { borrow_limit: BorrowerInfo { borrower: borrower.to_owned() } }
    }
}

/// Asks the overseer for a borrower's collateral.
#[derive(Debug, Clone, PartialEq)]
pub struct OverseerCollateralsQuery {
    pub collaterals: BorrowerInfo,
}

impl OverseerCollateralsQuery {
    pub fn new(borrower: &str) -> (query: OverseerCollateralsQuery)
        ensures
            query.collaterals.borrower@ == borrower@,
    {
        OverseerCollateralsQuery { collaterals: BorrowerInfo { borrower: borrower.to_owned() } }
    }
}

/// Asks the overseer for the terms of a collateral token.
#[derive(Debug, Clone, PartialEq)]
pub struct OverseerWhitelistQuery {
    pub whitelist: Whitelist,
}

impl OverseerWhitelistQuery {
    pub fn new(collateral_token: &str) -> (query: OverseerWhitelistQuery)
        ensures
            query.whitelist.collateral_token@ == collateral_token@,
    {
        OverseerWhitelistQuery { whitelist: Whitelist { collateral_token: collateral_token.to_owned() } }
    }
}

/// Asks the oracle for the price of `base` in `quote`.
#[derive(Debug, Clone, PartialEq)]
pub struct OraclePriceQuery {
    pub price: Price,
}

impl OraclePriceQuery {
    pub fn new(base: &str, quote: &str) -> (query: OraclePriceQuery)
        ensures
            query.price.base@ == base@,
            query.price.quote@ == quote@,
    {
        OraclePriceQuery { price: Price { base: base.to_owned(), quote: quote.to_owned() } }
    }
}

/// The terms of one collateral token.
#[derive(Debug, Clone, PartialEq)]
pub struct Elem {
    pub collateral_token: String,
    pub custody_contract: String,
    pub max_ltv: String,
    pub name: String,
    pub symbol: String,
}

/// The market's answer on a borrower: the loan in millionths, as text.
#[derive(Debug, Clone, PartialEq)]
pub struct MarketBorrowerInfo {
    pub borrower: String,
    pub interest_index: String,
    pub loan_amount: String,
    pub pending_rewards: String,
    pub reward_index: String,
}

/// The overseer's answer on a borrower's borrow limit.
#[derive(Debug, Clone, PartialEq)]
pub struct OverseerBorrowLimit {
    pub borrow_limit: String,
    pub borrower: String,
}

/// The overseer's answer on a borrower's collateral: pairs of a token's
/// address and the amount held, in millionths, as text.
#[derive(Debug, Clone, PartialEq)]
pub struct OverseerCollaterals {
    pub borrower: String,
    pub collaterals: Vec<Vec<String>>,
}

/// The overseer's answer on the terms of collateral tokens.
#[derive(Debug, Clone, PartialEq)]
pub struct OverseerWhitelist {
    pub elems: Vec<Elem>,
}

/// The oracle's answer on a price.
#[derive(Debug, Clone, PartialEq)]
pub struct OraclePriceInfo {
    pub last_updated_base: i64,
    pub last_updated_quote: i64,
    pub rate: String,
}

/// The arguments of the query for past borrows.
#[derive(Debug, Clone)]
pub struct BorrowStableTxHistoryQueryArguments {
    pub height_range: Option<Vec<Option<i32>>>,
}

/// The past borrows between two heights.
#[derive(Debug)]
pub struct BorrowStableTxHistoryQuery {
    pub transaction_history: Option<Vec<Option<TransactionHistory>>>,
    pub last_synced_height: Option<i32>,
}

impl BorrowStableTxHistoryQuery {
    /// The arguments of the query for the borrows between two heights.
    pub fn build_query(from: i32, to: i32) -> (arguments: BorrowStableTxHistoryQueryArguments)
        ensures
            arguments.height_range matches Some(range) && range@ == seq![Some(from), Some(to)],
    {
        let mut range: Vec<Option<i32>> = Vec::new();
        range.push(Some(from));
        range.push(Some(to));
        assert(range@ =~= seq![Some(from), Some(to)]);
        BorrowStableTxHistoryQueryArguments { height_range: Some(range) }
    }
}

/// One past transaction.
#[derive(Debug)]
pub struct TransactionHistory {
    pub height: Option<i32>,
    pub out_denom: Option<String>,
    pub out_amount: Option<String>,
    pub timestamp: Option<i32>,
    pub transaction_type: Option<String>,
    pub address: Option<String>,
}

/// The answers of the contracts to one query, each as the JSON text that the
/// contract returned.
#[derive(Debug, Clone, PartialEq)]
pub struct BorrowLiquidationPriceQuery {
    pub market_borrower_info: Option<GetWasmContractsContractAddressStorePayload>,
    pub overseer_borrow_limit: Option<GetWasmContractsContractAddressStorePayload>,
    pub overseer_collaterals: Option<GetWasmContractsContractAddressStorePayload>,
    pub overseer_whitelist: Option<GetWasmContractsContractAddressStorePayload>,
    pub oracle_price_info: Option<GetWasmContractsContractAddressStorePayload>,
}

/// The answer of a contract, by its shape.
#[derive(Debug, Clone, PartialEq)]
pub enum WasmContractResult {
    MarketBorrowerInfo {
        borrower: String,
        interest_index: String,
        loan_amount: String,
        pending_rewards: String,
        reward_index: String,
    },
    OverseerBorrowLimit { borrow_limit: String, borrower: String },
    OverseerCollaterals { borrower: String, collaterals: Vec<Vec<String>> },
    OverseerWhitelist { elems: Vec<Elem> },
    OraclePricenfo { last_updated_base: i64, last_updated_quote: i64, rate: String },
}

/// The answer of one contract, as JSON text.
#[derive(Debug, Clone, PartialEq)]
pub struct GetWasmContractsContractAddressStorePayload {
    pub result: Option<String>,
}

} // verus!
