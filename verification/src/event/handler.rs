//! From the log events of a block to the events of the ledger.

use vstd::prelude::*;
use crate::cache::{action_named, AnchorAction, CacheEvent, EventView};
use crate::decimal::{Decimal, DecimalValue};
use crate::event::{Attribute, EventDataSlim, LogEvent, LogSlim, TxSlim};
use crate::string_map::StringMap;
use crate::text::{parse_i64, written_i64};

verus! {

/// Why the attributes of a log event gave no ledger event.
#[derive(Debug, Clone, Copy, PartialEq, Eq, Structural)]
pub enum EventError {
    /// The attributes name no action.
    MissingAction,
    /// The amount is not an integer in the range of `i64`.
    MalformedAmount,
}

/// The attributes that have a value, by key. Of two attributes with one key
/// the later counts.
pub open spec fn attribute_map_spec(attrs: Seq<Attribute>) -> Map<Seq<char>, Seq<char>>
    decreases attrs.len(),
{
    if attrs.len() == 0 {
        Map::empty()
    } else {
        let sooner = attribute_map_spec(attrs.drop_last());
        match attrs.last().value {
            Some(value) => sooner.insert(attrs.last().key@, value@),
            None => sooner,
        }
    }
}

/// The borrower and the amount of an event, the amount read from the
/// attribute `amount_key` as a number of millionths. `None` where either
/// attribute is missing.
pub open spec fn statement_spec(attrs: Map<Seq<char>, Seq<char>>, amount_key: Seq<char>) -> Result<
    Option<(Seq<char>, DecimalValue)>,
    EventError,
> {
    if attrs.contains_key("borrower"@) && attrs.contains_key(amount_key) {
        match written_i64(attrs[amount_key]) {
            Some(millionths) => Ok(
                Some((attrs["borrower"@], DecimalValue { mantissa: millionths as int, scale: 6 })),
            ),
            None => Err(EventError::MalformedAmount),
        }
    } else {
        Ok(None)
    }
}

/// The ledger event of a given kind that the attributes describe, if they
/// describe one.
pub open spec fn described(attrs: Map<Seq<char>, Seq<char>>, action: AnchorAction) -> Result<
    Option<EventView>,
    EventError,
> {
    let amount_key = match action {
        AnchorAction::BorrowStable => "borrow_amount"@,
        AnchorAction::RepayStable => "repay_amount"@,
        AnchorAction::DepositCollateral => "amount"@,
        AnchorAction::WithdrawCollateral => "amount"@,
    };
    match statement_spec(attrs, amount_key) {
        Err(e) => Err(e),
        Ok(None) => Ok(None),
        Ok(Some((address, amount))) => match action {
            AnchorAction::BorrowStable => Ok(Some(EventView::BorrowStable { address, amount })),
            AnchorAction::RepayStable => Ok(Some(EventView::RepayStable { address, amount })),
            AnchorAction::DepositCollateral => if attrs.contains_key("contract_address"@) {
                Ok(
                    Some(
                        EventView::DepositCollateral {
                            address,
                            amount,
                            contract_address: attrs["contract_address"@],
                        },
                    ),
                )
            } else {
                Ok(None)
            },
            AnchorAction::WithdrawCollateral => if attrs.contains_key("contract_address"@) {
                Ok(
                    Some(
                        EventView::WithdrawCollateral {
                            address,
                            amount,
                            contract_address: attrs["contract_address"@],
                        },
                    ),
                )
            } else {
                Ok(None)
            },
        },
    }
}

/// The ledger event that the attributes of a contract's log event describe.
/// Attributes without an action are an error; an action that is none of the
/// ledger's gives no event.
pub open spec fn handle_from_contract_spec(attrs: Map<Seq<char>, Seq<char>>) -> Result<
    Option<EventView>,
    EventError,
> {
    if !attrs.contains_key("action"@) {
        Err(EventError::MissingAction)
    } else {
        match action_named(attrs["action"@]) {
            Some(action) => described(attrs, action),
            None => Ok(None),
        }
    }
}

/// The content of what a log event gave.
pub open spec fn handled_view(r: Result<Option<CacheEvent>, EventError>) -> Result<
    Option<EventView>,
    EventError,
> {
    match r {
        Ok(Some(event)) => Ok(Some(event@)),
        Ok(None) => Ok(None),
        Err(e) => Err(e),
    }
}

/// The content of one entry of a block's outcome.
pub open spec fn outcome_view(r: Result<CacheEvent, EventError>) -> Result<EventView, EventError> {
    match r {
        Ok(event) => Ok(event@),
        Err(e) => Err(e),
    }
}

/// The content of a block's outcome.
pub open spec fn outcome_views(outcomes: Seq<Result<CacheEvent, EventError>>) -> Seq<
    Result<EventView, EventError>,
> {
    Seq::new(outcomes.len(), |i: int| outcome_view(outcomes[i]))
}

/// What the log events of one log give, in order: a ledger event or an error
/// for each event of a contract that describes one or fails to.
pub open spec fn event_outcomes(events: Seq<LogEvent>) -> Seq<Result<EventView, EventError>>
    decreases events.len(),
{
    if events.len() == 0 {
        Seq::empty()
    } else {
        let sooner = event_outcomes(events.drop_last());
        match events.last() {
            LogEvent::FromContract { attributes } => match handle_from_contract_spec(
                attribute_map_spec(attributes@),
            ) {
                Ok(Some(event)) => sooner.push(Ok(event)),
                Ok(None) => sooner,
                Err(e) => sooner.push(Err(e)),
            },
            _ => sooner,
        }
    }
}

/// What the logs of one transaction give, in order.
pub open spec fn log_outcomes(logs: Seq<LogSlim>) -> Seq<Result<EventView, EventError>>
    decreases logs.len(),
{
    if logs.len() == 0 {
        Seq::empty()
    } else {
        log_outcomes(logs.drop_last()) + event_outcomes(logs.last().events@)
    }
}

/// What the transactions of one block give, in order.
pub open spec fn block_outcomes(txs: Seq<TxSlim>) -> Seq<Result<EventView, EventError>>
    decreases txs.len(),
{
    if txs.len() == 0 {
        Seq::empty()
    } else {
        block_outcomes(txs.drop_last()) + log_outcomes(txs.last().logs@)
    }
}

/// Collects the attributes that have a value into a map.
pub fn attribute_map(attrs: &Vec<Attribute>) -> (map: StringMap<String>)
    ensures
        map@ == attribute_map_spec(attrs@),
{
    let mut map: StringMap<String> = StringMap::new();
    let n = attrs.len();
    let mut i: usize = 0;
    assert(attrs@.take(0) =~= Seq::<Attribute>::empty());
    while i < n
        invariant
            i <= n,
            n == attrs@.len(),
            map@ == attribute_map_spec(attrs@.take(i as int)),
        decreases n - i,
    {
        assert(attrs@.take(i + 1).drop_last() =~= attrs@.take(i as int));
        assert(attrs@.take(i + 1).last() == attrs@[i as int]);
        match &attrs[i].value {
            Some(value) => {
                map.insert(attrs[i].key.clone(), value.clone());
            },
            None => {},
        }
        i += 1;
    }
    assert(attrs@.take(n as int) =~= attrs@);
    map
}

/// Reads the borrower and the amount of an event.
fn statement(attrs: &StringMap<String>, amount_key: &str) -> (r: Result<Option<(String, Decimal)>, EventError>)
    ensures
        match r {
            Ok(Some((address, amount))) => statement_spec(attrs@, amount_key@) == Ok::<
                Option<(Seq<char>, DecimalValue)>,
                EventError,
            >(Some((address@, amount@))),
            Ok(None) => statement_spec(attrs@, amount_key@) == Ok::<
                Option<(Seq<char>, DecimalValue)>,
                EventError,
            >(None),
            Err(e) => statement_spec(attrs@, amount_key@) == Err::<
                Option<(Seq<char>, DecimalValue)>,
                EventError,
            >(e),
        },
{
    match (attrs.get("borrower"), attrs.get(amount_key)) {
        (Some(borrower), Some(amount)) => match parse_i64(amount.as_str()) {
            Some(millionths) => Ok(Some((borrower.clone(), Decimal::new(millionths, 6)))),
            None => Err(EventError::MalformedAmount),
        },
        _ => Ok(None),
    }
}

/// The borrow that the attributes describe, if they describe one.
pub fn process_borrow_stable(attrs: &StringMap<String>) -> (r: Result<Option<CacheEvent>, EventError>)
    ensures
        handled_view(r) == described(attrs@, AnchorAction::BorrowStable),
{
    match statement(attrs, "borrow_amount") {
        Err(e) => Err(e),
        Ok(None) => Ok(None),
        Ok(Some((address, amount))) => Ok(Some(CacheEvent::BorrowStable { address, amount })),
    }
}

/// The repayment that the attributes describe, if they describe one.
pub fn process_repay_stable(attrs: &StringMap<String>) -> (r: Result<Option<CacheEvent>, EventError>)
    ensures
        handled_view(r) == described(attrs@, AnchorAction::RepayStable),
{
    match statement(attrs, "repay_amount") {
        Err(e) => Err(e),
        Ok(None) => Ok(None),
        Ok(Some((address, amount))) => Ok(Some(CacheEvent::RepayStable { address, amount })),
    }
}

/// The deposit of collateral that the attributes describe, if they describe
/// one.
pub fn process_deposit_collateral(attrs: &StringMap<String>) -> (r: Result<Option<CacheEvent>, EventError>)
    ensures
        handled_view(r) == described(attrs@, AnchorAction::DepositCollateral),
{
    match statement(attrs, "amount") {
        Err(e) => Err(e),
        Ok(None) => Ok(None),
        Ok(Some((address, amount))) => match attrs.get("contract_address") {
            Some(contract_address) => Ok(
                Some(
                    CacheEvent::DepositCollateral {
                        address,
                        amount,
                        contract_address: contract_address.clone(),
                    },
                ),
            ),
            None => Ok(None),
        },
    }
}

/// The withdrawal of collateral that the attributes describe, if they
/// describe one.
pub fn process_withdraw_collateral(attrs: &StringMap<String>) -> (r: Result<
    Option<CacheEvent>,
    EventError,
>)
    ensures
        handled_view(r) == described(attrs@, AnchorAction::WithdrawCollateral),
{
    match statement(attrs, "amount") {
        Err(e) => Err(e),
        Ok(None) => Ok(None),
        Ok(Some((address, amount))) => match attrs.get("contract_address") {
            Some(contract_address) => Ok(
                Some(
                    CacheEvent::WithdrawCollateral {
                        address,
                        amount,
                        contract_address: contract_address.clone(),
                    },
                ),
            ),
            None => Ok(None),
        },
    }
}

/// The ledger event that the attributes of a contract's log event describe.
pub fn handle_from_contract(attrs: &StringMap<String>) -> (r: Result<Option<CacheEvent>, EventError>)
    ensures
        handled_view(r) == handle_from_contract_spec(attrs@),
{
    match attrs.get("action") {
        None => Err(EventError::MissingAction),
        Some(action) => match AnchorAction::from_str(action.as_str()) {
            Some(AnchorAction::BorrowStable) => process_borrow_stable(attrs),
            Some(AnchorAction::RepayStable) => process_repay_stable(attrs),
            Some(AnchorAction::DepositCollateral) => process_deposit_collateral(attrs),
            Some(AnchorAction::WithdrawCollateral) => process_withdraw_collateral(attrs),
            None => Ok(None),
        },
    }
}

/// Adds what the log events of one log give to `outcomes`.
fn collect_events(events: &Vec<LogEvent>, outcomes: &mut Vec<Result<CacheEvent, EventError>>)
    ensures
        outcome_views(final(outcomes)@) == outcome_views(old(outcomes)@) + event_outcomes(events@),
{
    let ghost start = outcome_views(outcomes@);
    let n = events.len();
    let mut i: usize = 0;
    proof {
        assert(events@.take(0) =~= Seq::<LogEvent>::empty());
        assert(start + event_outcomes(events@.take(0)) =~= start);
    }
    while i < n
        invariant
            i <= n,
            n == events@.len(),
            outcome_views(outcomes@) == start + event_outcomes(events@.take(i as int)),
        decreases n - i,
    {
        let ghost sooner = outcome_views(outcomes@);
        proof {
            assert(events@.take(i + 1).drop_last() =~= events@.take(i as int));
            assert(events@.take(i + 1).last() == events@[i as int]);
        }
        match &events[i] {
            LogEvent::FromContract { attributes } => {
                let map = attribute_map(attributes);
                match handle_from_contract(&map) {
                    Ok(Some(event)) => {
                        outcomes.push(Ok(event));
                        assert(outcome_views(outcomes@) =~= sooner.push(Ok(event@)));
                    },
                    Ok(None) => {},
                    Err(e) => {
                        outcomes.push(Err(e));
                        assert(outcome_views(outcomes@) =~= sooner.push(Err(e)));
                    },
                }
            },
            _ => {},
        }
        proof {
            assert(outcome_views(outcomes@) =~= start + event_outcomes(events@.take(i + 1)));
        }
        i += 1;
    }
    assert(events@.take(n as int) =~= events@);
}

/// Adds what the logs of one transaction give to `outcomes`.
fn collect_logs(logs: &Vec<LogSlim>, outcomes: &mut Vec<Result<CacheEvent, EventError>>)
    ensures
        outcome_views(final(outcomes)@) == outcome_views(old(outcomes)@) + log_outcomes(logs@),
{
    let ghost start = outcome_views(outcomes@);
    let n = logs.len();
    let mut i: usize = 0;
    proof {
        assert(logs@.take(0) =~= Seq::<LogSlim>::empty());
        assert(start + log_outcomes(logs@.take(0)) =~= start);
    }
    while i < n
        invariant
            i <= n,
            n == logs@.len(),
            outcome_views(outcomes@) == start + log_outcomes(logs@.take(i as int)),
        decreases n - i,
    {
        proof {
            assert(logs@.take(i + 1).drop_last() =~= logs@.take(i as int));
            assert(logs@.take(i + 1).last() == logs@[i as int]);
        }
        collect_events(&logs[i].events, outcomes);
        proof {
            assert(outcome_views(outcomes@) =~= start + log_outcomes(logs@.take(i + 1)));
        }
        i += 1;
    }
    assert(logs@.take(n as int) =~= logs@);
}

/// The ledger events of a block, in the order of its transactions, their
/// logs and the events of each log. An event that cannot be read stands in
/// its place as an error and holds up none of the others.
pub fn handle_new_block(data: &EventDataSlim) -> (outcomes: Vec<Result<CacheEvent, EventError>>)
    ensures
        outcome_views(outcomes@) == block_outcomes(data.txs@),
{
    let mut outcomes: Vec<Result<CacheEvent, EventError>> = Vec::new();
    let n = data.txs.len();
    let mut i: usize = 0;
    proof {
        assert(data.txs@.take(0) =~= Seq::<TxSlim>::empty());
        assert(outcome_views(outcomes@) =~= block_outcomes(data.txs@.take(0)));
    }
    while i < n
        invariant
            i <= n,
            n == data.txs@.len(),
            outcome_views(outcomes@) == block_outcomes(data.txs@.take(i as int)),
        decreases n - i,
    {
        proof {
            assert(data.txs@.take(i + 1).drop_last() =~= data.txs@.take(i as int));
            assert(data.txs@.take(i + 1).last() == data.txs@[i as int]);
        }
        collect_logs(&data.txs[i].logs, &mut outcomes);
        i += 1;
    }
    assert(data.txs@.take(n as int) =~= data.txs@);
    outcomes
}

} // verus!
