use liquidation_monitor::anchor::CalcError;
use liquidation_monitor::cache::Loan;
use liquidation_monitor::decimal::Decimal;
use liquidation_monitor::mantle::client::{
    collateral_map, liquidation_price, liquidation_price_multi, parse_collateral, parse_loan, parse_loan_amount,
    valid_borrower, QueryError,
};
use liquidation_monitor::mantle::queries::{
    BorrowStableTxHistoryQuery, MarketBorrowerInfo, MarketBorrowerInfoQuery, OraclePriceQuery, OverseerBorrowLimitQuery, OverseerCollaterals,
    OverseerCollateralsQuery, OverseerWhitelistQuery,
};
use liquidation_monitor::mantle::Contracts;
use liquidation_monitor::string_map::StringMap;

fn info(loan_amount: &str) -> MarketBorrowerInfo {
    MarketBorrowerInfo {
        borrower: "terra1a".to_string(),
        interest_index: "1.0".to_string(),
        loan_amount: loan_amount.to_string(),
        pending_rewards: "0".to_string(),
        reward_index: "0".to_string(),
    }
}

fn collaterals(pairs: &[&[&str]]) -> OverseerCollaterals {
    OverseerCollaterals {
        borrower: "terra1a".to_string(),
        collaterals: pairs.iter().map(|pair| pair.iter().map(|text| text.to_string()).collect()).collect(),
    }
}

#[test]
fn contract_addresses_are_those_of_the_market() {
    assert_eq!(Contracts::MARKET, "terra1sepfj7s0aeg5967uxnfk4thzlerrsktkpelm5s");
    assert_eq!(Contracts::OVERSEER, "terra1tmnqgvg567ypvsvk6rwsga3srp7e3lg6u0elp8");
    assert_eq!(Contracts::BETH, "terra1dzhzukyezv0etz22ud940z7adyv7xgcjkahuun");
    assert_eq!(Contracts::BLUNA, "terra1kc87mu460fwkqte29rquh4hc20m54fxwtsx7gp");
    assert_eq!(Contracts::ORACLE, "terra1cgg6yef7qcdm070qftghfulaxmllgmvk77nc7t");
}

#[test]
fn queries_name_their_subject() {
    assert_eq!(MarketBorrowerInfoQuery::new("terra1a").borrower_info.borrower, "terra1a");
    assert_eq!(OverseerBorrowLimitQuery::new("terra1b").borrow_limit.borrower, "terra1b");
    assert_eq!(OverseerCollateralsQuery::new("terra1c").collaterals.borrower, "terra1c");
    assert_eq!(OverseerWhitelistQuery::new(Contracts::BLUNA).whitelist.collateral_token, Contracts::BLUNA);
    let price = OraclePriceQuery::new(Contracts::BLUNA, "uusd");
    assert_eq!(price.price.base, Contracts::BLUNA);
    assert_eq!(price.price.quote, "uusd");
}

#[test]
fn a_borrower_is_an_address_of_the_chain() {
    assert!(valid_borrower("terra1fhv4r0rm43cznxyxf0uv8jl4eapgn3tnq5dntv"));
    assert!(valid_borrower("terra"));
    assert!(!valid_borrower("abcd"));
    assert!(!valid_borrower("terr"));
    assert!(!valid_borrower(""));
    assert!(!valid_borrower("Terra1abc"));
    assert!(!valid_borrower(" terra1abc"));
}

#[test]
fn the_loan_is_read_as_millionths() {
    assert_eq!(parse_loan_amount(Some(&info("1200000000"))), Ok(Some(Decimal::new(1_200_000_000, 6))));
    assert_eq!(parse_loan_amount(Some(&info("0"))), Ok(Some(Decimal::new(0, 6))));
    assert_eq!(parse_loan_amount(None), Ok(None));
}

#[test]
fn a_loan_that_is_no_integer_is_an_error() {
    assert_eq!(parse_loan_amount(Some(&info("1200.5"))), Err(QueryError::MalformedAmount));
    assert_eq!(parse_loan_amount(Some(&info(""))), Err(QueryError::MalformedAmount));
}

#[test]
fn collateral_pairs_count_under_their_address() {
    let map = collateral_map(&collaterals(&[
        &["terra1x", "5"],
        &["7", "terra1y"],
        &["terra1z", "terra1w"],
        &["8", "9"],
        &["terra1lonely"],
        &[],
        &["terra1x", "6", "ignored"],
    ]).collaterals);
    assert_eq!(map.len(), 3);
    assert_eq!(map.get("terra1x"), Some(&"6".to_string()));
    assert_eq!(map.get("terra1y"), Some(&"7".to_string()));
    assert_eq!(map.get("terra1z"), Some(&"terra1w".to_string()));
}

#[test]
fn a_collateral_is_read_as_millionths() {
    let answer = collaterals(&[&[Contracts::BLUNA, "100000000"], &[Contracts::BETH, "5000000"]]);
    assert_eq!(parse_collateral(Some(&answer), Contracts::BLUNA), Ok(Some(Decimal::new(100_000_000, 6))));
    assert_eq!(parse_collateral(Some(&answer), Contracts::BETH), Ok(Some(Decimal::new(5_000_000, 6))));
    assert_eq!(parse_collateral(Some(&answer), "terra1other"), Ok(None));
    assert_eq!(parse_collateral(None, Contracts::BLUNA), Ok(None));
}

#[test]
fn a_collateral_keeps_the_digits_that_rust_decimal_reads() {
    let answer = collaterals(&[&["terra1a", "1.5"], &["terra1b", "-20"], &["terra1c", "0.000"]]);
    assert_eq!(parse_collateral(Some(&answer), "terra1a"), Ok(Some(Decimal::new(15, 6))));
    assert_eq!(parse_collateral(Some(&answer), "terra1b"), Ok(Some(Decimal::new(-20, 6))));
    assert_eq!(parse_collateral(Some(&answer), "terra1c"), Ok(Some(Decimal::new(0, 6))));
}

#[test]
fn a_collateral_that_is_no_number_is_an_error() {
    let answer = collaterals(&[&["terra1a", "plenty"], &["terra1b", ""]]);
    assert_eq!(parse_collateral(Some(&answer), "terra1a"), Err(QueryError::MalformedCollateral));
    assert_eq!(parse_collateral(Some(&answer), "terra1b"), Err(QueryError::MalformedCollateral));
}

#[test]
fn a_position_is_read_from_both_answers() {
    let answer = collaterals(&[&[Contracts::BLUNA, "100000000"], &[Contracts::BETH, "5000000"]]);
    let mut held = StringMap::new();
    held.insert(Contracts::BLUNA.to_string(), Decimal::new(100_000_000, 6));
    held.insert(Contracts::BETH.to_string(), Decimal::new(5_000_000, 6));
    assert_eq!(
        parse_loan(Some(&info("1200000000")), Some(&answer)),
        Ok(Loan { amount: Decimal::new(1_200_000_000, 6), collaterals: held })
    );
}

#[test]
fn a_position_needs_no_beth() {
    let answer = collaterals(&[&[Contracts::BLUNA, "100000000"], &["terra1other", "1"]]);
    let mut held = StringMap::new();
    held.insert(Contracts::BLUNA.to_string(), Decimal::new(100_000_000, 6));
    assert_eq!(
        parse_loan(Some(&info("1200000000")), Some(&answer)),
        Ok(Loan { amount: Decimal::new(1_200_000_000, 6), collaterals: held })
    );
}

#[test]
fn a_position_needs_loan_and_bluna() {
    let bluna = collaterals(&[&[Contracts::BLUNA, "100000000"]]);
    let beth = collaterals(&[&[Contracts::BETH, "100000000"]]);
    let spoilt = collaterals(&[&[Contracts::BLUNA, "100000000"], &[Contracts::BETH, "much"]]);
    assert_eq!(parse_loan(None, Some(&bluna)), Err(QueryError::Liquidation));
    assert_eq!(parse_loan(Some(&info("x")), Some(&bluna)), Err(QueryError::Liquidation));
    assert_eq!(parse_loan(Some(&info("1")), Some(&beth)), Err(QueryError::Liquidation));
    assert_eq!(parse_loan(Some(&info("1")), None), Err(QueryError::Liquidation));
    assert_eq!(parse_loan(Some(&info("1")), Some(&spoilt)), Err(QueryError::Liquidation));
}

#[test]
fn the_price_of_an_answered_position() {
    let answer = collaterals(&[&[Contracts::BLUNA, "100000000"]]);
    assert_eq!(liquidation_price(Some(&info("1200000000")), Some(&answer)), Ok(Some(Decimal::new(20, 0))));
    assert_eq!(liquidation_price(None, Some(&answer)), Err(QueryError::LiquidationPrice));
    assert_eq!(liquidation_price(Some(&info("1200000000")), None), Err(QueryError::LiquidationPrice));
    let empty = collaterals(&[&[Contracts::BLUNA, "0"]]);
    assert_eq!(
        liquidation_price(Some(&info("1200000000")), Some(&empty)),
        Err(QueryError::Arithmetic(CalcError::DivisionByZero))
    );
}

#[test]
fn the_combined_price_of_an_answered_position() {
    let both = collaterals(&[&[Contracts::BLUNA, "100000000"], &[Contracts::BETH, "5000000"]]);
    let beth_price = Decimal::new(2_800_000_000, 6);
    let price = liquidation_price_multi(Some(&info("10000000000")), Some(&both), beth_price).unwrap().unwrap();
    assert_eq!(price.round_dp(1), Decimal::new(267, 1));
    let bluna = collaterals(&[&[Contracts::BLUNA, "100000000"]]);
    assert_eq!(
        liquidation_price_multi(Some(&info("1200000000")), Some(&bluna), beth_price),
        Ok(Some(Decimal::new(20, 0)))
    );
    assert_eq!(liquidation_price_multi(None, Some(&both), beth_price), Err(QueryError::Liquidation));
    let beth = collaterals(&[&[Contracts::BETH, "5000000"]]);
    assert_eq!(
        liquidation_price_multi(Some(&info("1200000000")), Some(&beth), beth_price),
        Err(QueryError::Liquidation)
    );
    let empty = collaterals(&[&[Contracts::BLUNA, "0"], &[Contracts::BETH, "5000000"]]);
    assert_eq!(
        liquidation_price_multi(Some(&info("1200000000")), Some(&empty), beth_price),
        Err(QueryError::Arithmetic(CalcError::DivisionByZero))
    );
}

#[test]
fn the_history_query_spans_two_heights() {
    let arguments = BorrowStableTxHistoryQuery::build_query(4_737_552, 4_739_954);
    assert_eq!(arguments.height_range, Some(vec![Some(4_737_552), Some(4_739_954)]));
}
