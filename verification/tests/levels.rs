use liquidation_monitor::anchor::max_ltv;
use liquidation_monitor::cache::{
    bucket_key, liquidation_levels, place, record, AnchorCache, Borrowers, CacheEvent, LiquidationLevel,
    LiquidationLevels, Loan,
};
use liquidation_monitor::decimal::{Decimal, MAX_MANTISSA};
use liquidation_monitor::mantle::Contracts;
use liquidation_monitor::string_map::StringMap;

fn units(n: i64) -> Decimal {
    Decimal::new(n * 1_000_000, 6)
}

fn loan(amount: i64, collaterals: &[(&str, i64)]) -> Loan {
    let mut held = StringMap::new();
    for (token, n) in collaterals {
        held.insert(token.to_string(), units(*n));
    }
    Loan { amount: units(amount), collaterals: held }
}

fn ledger(positions: &[(&str, Loan)]) -> Borrowers {
    let mut borrowers = StringMap::new();
    for (address, position) in positions {
        borrowers.insert(address.to_string(), position.clone());
    }
    borrowers
}

fn default_price() -> Decimal {
    Decimal::new(2_800_000_000, 6)
}

#[test]
fn a_seeded_borrower_stands_at_its_liquidation_price() {
    let borrowers = ledger(&[("addr1", loan(1200, &[(Contracts::BLUNA, 100)]))]);
    let levels = liquidation_levels(&borrowers, &default_price(), &max_ltv());
    assert_eq!(levels.len(), 1);
    let level = levels.get(&200).unwrap();
    assert_eq!(level.bluna_vol, units(100));
    assert_eq!(level.beth_vol, Decimal::new(0, 0));
    assert_eq!(level.borrowers, vec!["addr1".to_string()]);
}

#[test]
fn a_borrower_with_both_collaterals_stands_at_the_combined_price() {
    let borrowers = ledger(&[("addr1", loan(10_000, &[(Contracts::BLUNA, 100), (Contracts::BETH, 5)]))]);
    let levels = liquidation_levels(&borrowers, &default_price(), &max_ltv());
    assert_eq!(levels.len(), 1);
    let level = levels.get(&267).unwrap();
    assert_eq!(level.bluna_vol, units(100));
    assert_eq!(level.beth_vol, units(5));
    assert_eq!(level.borrowers, vec!["addr1".to_string()]);
}

#[test]
fn borrowers_without_bluna_are_in_no_level() {
    let borrowers = ledger(&[
        ("addr1", loan(1200, &[(Contracts::BETH, 100)])),
        ("addr2", loan(1200, &[])),
        ("addr3", loan(1200, &[("terra1other", 100)])),
    ]);
    let levels = liquidation_levels(&borrowers, &default_price(), &max_ltv());
    assert!(levels.is_empty());
}

#[test]
fn borrowers_whose_price_is_not_above_zero_are_in_no_level() {
    let borrowers = ledger(&[
        ("covered", loan(600, &[(Contracts::BLUNA, 100), (Contracts::BETH, 1)])),
        ("nothing_owed", loan(0, &[(Contracts::BLUNA, 100)])),
        ("overpaid", loan(-5, &[(Contracts::BLUNA, 100)])),
        ("liquidatable", loan(1200, &[(Contracts::BLUNA, 100)])),
    ]);
    let levels = liquidation_levels(&borrowers, &default_price(), &max_ltv());
    assert_eq!(levels.len(), 1);
    assert_eq!(levels.get(&200).unwrap().borrowers, vec!["liquidatable".to_string()]);
}

#[test]
fn borrowers_whose_price_cannot_be_computed_are_in_no_level() {
    let borrowers = ledger(&[
        ("empty", loan(1200, &[(Contracts::BLUNA, 0)])),
        ("fine", loan(1200, &[(Contracts::BLUNA, 100)])),
    ]);
    let levels = liquidation_levels(&borrowers, &default_price(), &max_ltv());
    assert_eq!(levels.len(), 1);
    assert_eq!(levels.get(&200).unwrap().borrowers, vec!["fine".to_string()]);
    let none = liquidation_levels(&borrowers, &default_price(), &Decimal::new(0, 1));
    assert!(none.is_empty());
}

#[test]
fn borrowers_of_one_price_share_a_level() {
    let borrowers = ledger(&[
        ("b", loan(1200, &[(Contracts::BLUNA, 100)])),
        ("a", loan(2400, &[(Contracts::BLUNA, 200)])),
        ("c", loan(600, &[(Contracts::BLUNA, 10)])),
        ("d", loan(10_000, &[(Contracts::BLUNA, 100), (Contracts::BETH, 5)])),
        ("e", loan(10_001, &[(Contracts::BLUNA, 100), (Contracts::BETH, 5)])),
    ]);
    let levels = liquidation_levels(&borrowers, &default_price(), &max_ltv());
    let keys: Vec<i128> = levels.keys().copied().collect();
    assert_eq!(keys, vec![200, 267, 1000]);
    let shared = levels.get(&200).unwrap();
    assert_eq!(shared.borrowers, vec!["a".to_string(), "b".to_string()]);
    assert_eq!(shared.bluna_vol, units(300));
    let rounded = levels.get(&267).unwrap();
    assert_eq!(rounded.borrowers, vec!["d".to_string(), "e".to_string()]);
    assert_eq!(rounded.bluna_vol, units(200));
    assert_eq!(rounded.beth_vol, units(10));
    assert_eq!(levels.get(&1000).unwrap().borrowers, vec!["c".to_string()]);
}

#[test]
fn the_price_of_beth_moves_the_levels() {
    let borrowers = ledger(&[("addr1", loan(10_000, &[(Contracts::BLUNA, 100), (Contracts::BETH, 5)]))]);
    let cheap = liquidation_levels(&borrowers, &units(1000), &max_ltv());
    let keys: Vec<i128> = cheap.keys().copied().collect();
    assert_eq!(keys, vec![1167]);
    let dear = liquidation_levels(&borrowers, &units(4000), &max_ltv());
    assert!(dear.is_empty());
}

#[test]
fn the_same_ledger_gives_the_same_levels() {
    let borrowers = ledger(&[
        ("a", loan(2400, &[(Contracts::BLUNA, 200)])),
        ("b", loan(1200, &[(Contracts::BLUNA, 100)])),
        ("d", loan(10_000, &[(Contracts::BLUNA, 100), (Contracts::BETH, 5)])),
    ]);
    let first = liquidation_levels(&borrowers, &default_price(), &max_ltv());
    let second = liquidation_levels(&borrowers, &default_price(), &max_ltv());
    assert_eq!(first, second);
}

#[test]
fn levels_follow_the_ledger() {
    let mut cache = AnchorCache::new();
    cache.borrowers.insert("addr1".to_string(), loan(1200, &[(Contracts::BLUNA, 100)]));
    let before = liquidation_levels(&cache.snapshot(), &default_price(), &max_ltv());
    assert!(before.contains_key(&200));
    cache.apply(&CacheEvent::BorrowStable { address: "addr1".to_string(), amount: units(600) });
    let after = liquidation_levels(&cache.snapshot(), &default_price(), &max_ltv());
    let keys: Vec<i128> = after.keys().copied().collect();
    assert_eq!(keys, vec![300]);
}

#[test]
fn bucket_key_is_the_rounded_price_in_tenths() {
    assert_eq!(bucket_key(&Decimal::new(20, 0)), Some(200));
    assert_eq!(bucket_key(&Decimal::new(266_666_666, 7)), Some(267));
    assert_eq!(bucket_key(&Decimal::new(2665, 2)), Some(266));
    assert_eq!(bucket_key(&Decimal::new(4, 2)), Some(0));
    assert_eq!(bucket_key(&Decimal::new(0, 0)), None);
    assert_eq!(bucket_key(&Decimal::new(0, 6)), None);
    assert_eq!(bucket_key(&Decimal::new(-1, 6)), None);
}

#[test]
fn place_opens_and_fills_levels() {
    let mut levels = LiquidationLevels::new();
    place(&mut levels, &"a".to_string(), 5, units(1), units(2));
    place(&mut levels, &"b".to_string(), 3, units(10), units(20));
    place(&mut levels, &"c".to_string(), 5, units(100), units(200));
    assert_eq!(levels.len(), 2);
    assert_eq!(
        levels.get(&5),
        Some(&LiquidationLevel {
            bluna_vol: units(101),
            beth_vol: units(202),
            borrowers: vec!["a".to_string(), "c".to_string()],
        })
    );
    assert_eq!(
        levels.get(&3),
        Some(&LiquidationLevel { bluna_vol: units(10), beth_vol: units(20), borrowers: vec!["b".to_string()] })
    );
}

#[test]
fn place_leaves_out_a_borrower_whose_volume_does_not_fit() {
    let top = Decimal::try_from_i128_with_scale(MAX_MANTISSA, 0).unwrap();
    let one = Decimal::new(1, 0);
    let mut levels = LiquidationLevels::new();
    place(&mut levels, &"a".to_string(), 5, top, one);
    let before = levels.clone();
    place(&mut levels, &"b".to_string(), 5, one, one);
    assert_eq!(levels, before);
    place(&mut levels, &"c".to_string(), 5, Decimal::new(0, 0), top);
    assert_eq!(levels, before);
}

#[test]
fn record_takes_one_position_into_account() {
    let mut levels = LiquidationLevels::new();
    let price = default_price();
    record(&mut levels, &"a".to_string(), &loan(1200, &[(Contracts::BLUNA, 100)]), &price, &max_ltv());
    record(&mut levels, &"b".to_string(), &loan(1200, &[(Contracts::BETH, 100)]), &price, &max_ltv());
    record(&mut levels, &"c".to_string(), &loan(0, &[(Contracts::BLUNA, 100)]), &price, &max_ltv());
    assert_eq!(levels.len(), 1);
    assert_eq!(levels.get(&200).unwrap().borrowers, vec!["a".to_string()]);
}

#[test]
fn no_borrower_is_twice_in_the_levels() {
    let mut positions = Vec::new();
    for i in 0..60i64 {
        positions.push((format!("addr{:02}", i), loan(1000 + (i % 7) * 10, &[(Contracts::BLUNA, 100)])));
    }
    let mut borrowers: Borrowers = StringMap::new();
    for (address, position) in &positions {
        borrowers.insert(address.clone(), position.clone());
    }
    let levels = liquidation_levels(&borrowers, &default_price(), &max_ltv());
    let mut members: Vec<String> = levels.values().flat_map(|level| level.borrowers.clone()).collect();
    assert_eq!(members.len(), 60);
    members.sort();
    members.dedup();
    assert_eq!(members.len(), 60);
    for level in levels.values() {
        let mut sorted = level.borrowers.clone();
        sorted.sort();
        assert_eq!(sorted, level.borrowers);
    }
}
