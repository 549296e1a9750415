//! The ledger of loan positions, the events that change it, and the grouping
//! of borrowers by liquidation price.

use std::collections::BTreeMap;
use vstd::prelude::*;
use crate::anchor::{liquidation_price_multi, liquidation_price_multi_spec};
use crate::decimal::{difference, pow10, sum, tenths, Decimal, DecimalValue, MAX_MANTISSA, MAX_SCALE};
use crate::mantle::Contracts;
use crate::string_map::{StringMap, same};

verus! {

/// The ledger: every tracked borrower's position, in ascending address order.
pub type Borrowers = StringMap<Loan>;

/// A borrower's position: the outstanding loan and the collateral deposited
/// per token.
#[derive(Debug, Clone, PartialEq)]
pub struct Loan {
    pub amount: Decimal,
    pub collaterals: StringMap<Decimal>,
}

/// The content of a [`Loan`].
pub struct LoanView {
    pub amount: DecimalValue,
    pub collaterals: Map<Seq<char>, DecimalValue>,
}

impl View for Loan {
    type V = LoanView;

    open spec fn view(&self) -> LoanView {
        LoanView { amount: self.amount@, collaterals: self.collaterals@ }
    }
}

/// The content of a ledger.
pub type Ledger = Map<Seq<char>, LoanView>;

/// A change to one borrower's position.
#[derive(Debug, Clone, PartialEq)]
pub enum CacheEvent {
    BorrowStable { address: String, amount: Decimal },
    RepayStable { address: String, amount: Decimal },
    DepositCollateral { address: String, amount: Decimal, contract_address: String },
    WithdrawCollateral { address: String, amount: Decimal, contract_address: String },
}

/// The content of a [`CacheEvent`].
pub enum EventView {
    BorrowStable { address: Seq<char>, amount: DecimalValue },
    RepayStable { address: Seq<char>, amount: DecimalValue },
    DepositCollateral { address: Seq<char>, amount: DecimalValue, contract_address: Seq<char> },
    WithdrawCollateral { address: Seq<char>, amount: DecimalValue, contract_address: Seq<char> },
}

impl View for CacheEvent {
    type V = EventView;

    open spec fn view(&self) -> EventView {
        match self {
            CacheEvent::BorrowStable { address, amount } => EventView::BorrowStable {
                address: address@,
                amount: amount@,
            },
            CacheEvent::RepayStable { address, amount } => EventView::RepayStable {
                address: address@,
                amount: amount@,
            },
            CacheEvent::DepositCollateral {
                address,
                amount,
                contract_address,
            } => EventView::DepositCollateral {
                address: address@,
                amount: amount@,
                contract_address: contract_address@,
            },
            CacheEvent::WithdrawCollateral {
                address,
                amount,
                contract_address,
            } => EventView::WithdrawCollateral {
                address: address@,
                amount: amount@,
                contract_address: contract_address@,
            },
        }
    }
}

impl EventView {
    /// The borrower whose position the event changes.
    pub open spec fn address(self) -> Seq<char> {
        match self {
            EventView::BorrowStable { address, .. } => address,
            EventView::RepayStable { address, .. } => address,
            EventView::DepositCollateral { address, .. } => address,
            EventView::WithdrawCollateral { address, .. } => address,
        }
    }

    /// The amount that the event adds or takes away.
    pub open spec fn amount(self) -> DecimalValue {
        match self {
            EventView::BorrowStable { amount, .. } => amount,
            EventView::RepayStable { amount, .. } => amount,
            EventView::DepositCollateral { amount, .. } => amount,
            EventView::WithdrawCollateral { amount, .. } => amount,
        }
    }

    /// The collateral token that the event changes; `None` where it changes
    /// the loan.
    pub open spec fn token(self) -> Option<Seq<char>> {
        match self {
            EventView::BorrowStable { .. } => None,
            EventView::RepayStable { .. } => None,
            EventView::DepositCollateral { contract_address, .. } => Some(contract_address),
            EventView::WithdrawCollateral { contract_address, .. } => Some(contract_address),
        }
    }

    /// Whether the event adds its amount; the others take it away.
    pub open spec fn adds(self) -> bool {
        self is BorrowStable || self is DepositCollateral
    }

    /// The amount in units of `10^-28`, negated where the event takes away.
    pub open spec fn signed_units(self) -> int {
        if self.adds() {
            units(self.amount())
        } else {
            -units(self.amount())
        }
    }

    /// The mantissa of the amount, negated where the event takes away.
    pub open spec fn signed_mantissa(self) -> int {
        if self.adds() {
            self.amount().mantissa
        } else {
            -self.amount().mantissa
        }
    }
}

/// The kinds of event, as the feed names them.
#[derive(Debug, Clone, Copy, PartialEq, Eq, Structural)]
pub enum AnchorAction {
    BorrowStable,
    RepayStable,
    DepositCollateral,
    WithdrawCollateral,
}

/// The kind of event that an action name of the feed stands for.
pub open spec fn action_named(name: Seq<char>) -> Option<AnchorAction> {
    if name == "borrow_stable"@ {
        Some(AnchorAction::BorrowStable)
    } else if name == "repay_stable"@ {
        Some(AnchorAction::RepayStable)
    } else if name == "deposit_collateral"@ {
        Some(AnchorAction::DepositCollateral)
    } else if name == "withdraw_collateral"@ {
        Some(AnchorAction::WithdrawCollateral)
    } else {
        None
    }
}

impl AnchorAction {
    /// The kind of event that an action name of the feed stands for.
    pub fn from_str(name: &str) -> (action: Option<AnchorAction>)
        ensures
            action == action_named(name@),
    {
        if same(name, "borrow_stable") {
            Some(AnchorAction::BorrowStable)
        } else if same(name, "repay_stable") {
            Some(AnchorAction::RepayStable)
        } else if same(name, "deposit_collateral") {
            Some(AnchorAction::DepositCollateral)
        } else if same(name, "withdraw_collateral") {
            Some(AnchorAction::WithdrawCollateral)
        } else {
            None
        }
    }
}

/// What became of an event.
#[derive(Debug, Clone, Copy, PartialEq, Eq, Structural)]
pub enum Applied {
    /// The position was changed.
    Done,
    /// The ledger does not track the borrower; nothing was changed.
    UnknownBorrower,
    /// The borrower holds none of the token to withdraw; nothing was changed.
    UnknownCollateral,
    /// The new amount does not fit a decimal; nothing was changed.
    Overflow,
}

impl LoanView {
    /// What the position holds in the place that an event on `token`
    /// changes: the loan for `None`, else the holding of that token.
    pub open spec fn held(self, token: Option<Seq<char>>) -> Option<DecimalValue> {
        match token {
            None => Some(self.amount),
            Some(t) => if self.collaterals.contains_key(t) {
                Some(self.collaterals[t])
            } else {
                None
            },
        }
    }

    /// The position with `value` in that place.
    pub open spec fn with_held(self, token: Option<Seq<char>>, value: DecimalValue) -> LoanView {
        match token {
            None => LoanView { amount: value, collaterals: self.collaterals },
            Some(t) => LoanView { amount: self.amount, collaterals: self.collaterals.insert(t, value) },
        }
    }

    /// The position after an event on it, and what became of the event.
    ///
    /// A deposit of a token that the borrower does not hold yet opens the
    /// holding with the deposited amount; a withdrawal of such a token is
    /// dropped. Otherwise the amount is added to, or taken from, what is
    /// held, in decimal arithmetic; an event whose result does not fit a
    /// decimal is dropped.
    pub open spec fn after(self, event: EventView) -> (LoanView, Applied) {
        match self.held(event.token()) {
            None => if event is DepositCollateral {
                (self.with_held(event.token(), event.amount()), Applied::Done)
            } else {
                (self, Applied::UnknownCollateral)
            },
            Some(current) => {
                let changed = if event.adds() {
                    sum(current, event.amount())
                } else {
                    difference(current, event.amount())
                };
                match changed {
                    None => (self, Applied::Overflow),
                    Some(value) => (self.with_held(event.token(), value), Applied::Done),
                }
            },
        }
    }

    /// Whether an event changes a holding by exact integer arithmetic on the
    /// mantissas: the holding is there, the amount has its scale, and the
    /// new mantissa fits 96 bits.
    pub open spec fn aligned(self, event: EventView) -> bool {
        match self.held(event.token()) {
            None => false,
            Some(current) => current.scale == event.amount().scale && -MAX_MANTISSA
                <= current.mantissa + event.signed_mantissa() <= MAX_MANTISSA,
        }
    }

    /// What an aligned event leaves in the holding.
    pub open spec fn exact(self, event: EventView) -> DecimalValue {
        let current = self.held(event.token()).unwrap();
        DecimalValue { mantissa: current.mantissa + event.signed_mantissa(), scale: current.scale }
    }
}

/// What a borrower's position holds in the place that an event on `token`
/// changes; `None` for an untracked borrower.
pub open spec fn held(ledger: Ledger, address: Seq<char>, token: Option<Seq<char>>) -> Option<DecimalValue> {
    if ledger.contains_key(address) {
        ledger[address].held(token)
    } else {
        None
    }
}

/// The ledger after an event, and what became of the event. An event on an
/// untracked borrower is dropped.
pub open spec fn step(ledger: Ledger, event: EventView) -> (Ledger, Applied) {
    if !ledger.contains_key(event.address()) {
        (ledger, Applied::UnknownBorrower)
    } else {
        let (loan, outcome) = ledger[event.address()].after(event);
        (ledger.insert(event.address(), loan), outcome)
    }
}

/// The contents of a sequence of events.
pub open spec fn event_views(events: Seq<CacheEvent>) -> Seq<EventView> {
    Seq::new(events.len(), |i: int| events[i]@)
}

/// The ledger after a sequence of events, applied in order.
pub open spec fn after_events(ledger: Ledger, events: Seq<EventView>) -> Ledger
    decreases events.len(),
{
    if events.len() == 0 {
        ledger
    } else {
        step(after_events(ledger, events.drop_last()), events.last()).0
    }
}

/// The sum of the mantissas of the events' amounts, each counted with the
/// sign of its event.
pub open spec fn net_change(events: Seq<EventView>) -> int
    decreases events.len(),
{
    if events.len() == 0 {
        0
    } else {
        net_change(events.drop_last()) + events.last().signed_mantissa()
    }
}

/// Whether the events all change one holding of one tracked borrower, with
/// amounts of the holding's scale, and no partial sum of the mantissas
/// leaves the 96 bits of a decimal.
pub open spec fn steady(ledger: Ledger, events: Seq<EventView>) -> bool {
    &&& events.len() > 0
    &&& held(ledger, events[0].address(), events[0].token()) matches Some(seed)
    &&& forall|i: int|
        0 <= i < events.len() ==> {
            &&& (#[trigger] events[i]).address() == events[0].address()
            &&& events[i].token() == events[0].token()
            &&& events[i].amount().scale == seed.scale
            &&& -MAX_MANTISSA <= seed.mantissa + net_change(events.take(i + 1)) <= MAX_MANTISSA
        }
}

/// A value as a whole number of units of `10^-28`, the smallest step of a
/// decimal.
pub open spec fn units(v: DecimalValue) -> int {
    v.mantissa * pow10((MAX_SCALE - v.scale) as nat)
}

/// What the events add in units of `10^-28`, each amount counted with the
/// sign of its event.
pub open spec fn net_units(events: Seq<EventView>) -> int
    decreases events.len(),
{
    if events.len() == 0 {
        0
    } else {
        net_units(events.drop_last()) + events.last().signed_units()
    }
}

/// Whether decimal arithmetic changes a holding of `current` by exactly the
/// amount of the event: the result fits a decimal and nothing is rounded.
pub open spec fn exact_on(current: DecimalValue, event: EventView) -> bool {
    let changed = if event.adds() {
        sum(current, event.amount())
    } else {
        difference(current, event.amount())
    };
    changed matches Some(value) && units(value) == units(current) + event.signed_units()
}

/// Whether the events all change the holding of `token` of the tracked
/// borrower `address`, which is there at the start, and decimal arithmetic
/// is exact at every one of them.
pub open spec fn exact_run(ledger: Ledger, events: Seq<EventView>, address: Seq<char>, token: Option<Seq<char>>) -> bool {
    &&& held(ledger, address, token) is Some
    &&& forall|i: int|
        0 <= i < events.len() ==> (#[trigger] events[i]).address() == address && events[i].token() == token
    &&& forall|i: int|
        0 <= i < events.len() ==> (held(
            #[trigger] after_events(ledger, events.take(i)),
            address,
            token,
        ) matches Some(current) ==> exact_on(current, events[i]))
}

/// Additive consistency: after events on one holding, each of them exact,
/// the holding is worth what it was worth at the start plus the signed sum
/// of the amounts. This covers borrowing and repaying on a loan as well as
/// depositing and withdrawing a token that the borrower holds.
pub proof fn lemma_exact_events_add_up(
    ledger: Ledger,
    events: Seq<EventView>,
    address: Seq<char>,
    token: Option<Seq<char>>,
)
    ensures
        exact_run(ledger, events, address, token) ==> (held(after_events(ledger, events), address, token) matches Some(
            value,
        ) && units(value) == units(held(ledger, address, token).unwrap()) + net_units(events)),
    decreases events.len(),
{
    if exact_run(ledger, events, address, token) && events.len() > 0 {
        let sooner = events.drop_last();
        let last = events.len() - 1;
        assert(events.take(last) =~= sooner);
        assert forall|i: int| 0 <= i < sooner.len() implies (held(
            #[trigger] after_events(ledger, sooner.take(i)),
            address,
            token,
        ) matches Some(current) ==> exact_on(current, sooner[i])) by {
            assert(sooner.take(i) =~= events.take(i));
            assert(sooner[i] == events[i]);
        }
        assert forall|i: int| 0 <= i < sooner.len() implies (#[trigger] sooner[i]).address() == address
            && sooner[i].token() == token by {
            assert(sooner[i] == events[i]);
        }
        lemma_exact_events_add_up(ledger, sooner, address, token);
        let before = after_events(ledger, sooner);
        assert(events[last].address() == address);
        assert(held(after_events(ledger, events.take(last)), address, token) is Some);
    }
}

/// A ledger's entries in ascending address order.
pub open spec fn entries(borrowers: Borrowers) -> Seq<(Seq<char>, LoanView)> {
    Seq::new(borrowers.keys().len(), |i: int| (borrowers.keys()[i], borrowers.values()[i]@))
}

impl CacheEvent {
    /// The kind of the event.
    pub fn action(&self) -> (action: AnchorAction)
        ensures
            action == match self@ {
                EventView::BorrowStable { .. } => AnchorAction::BorrowStable,
                EventView::RepayStable { .. } => AnchorAction::RepayStable,
                EventView::DepositCollateral { .. } => AnchorAction::DepositCollateral,
                EventView::WithdrawCollateral { .. } => AnchorAction::WithdrawCollateral,
            },
    {
        match self {
            CacheEvent::BorrowStable { .. } => AnchorAction::BorrowStable,
            CacheEvent::RepayStable { .. } => AnchorAction::RepayStable,
            CacheEvent::DepositCollateral { .. } => AnchorAction::DepositCollateral,
            CacheEvent::WithdrawCollateral { .. } => AnchorAction::WithdrawCollateral,
        }
    }

    /// The borrower whose position the event changes.
    pub fn address(&self) -> (a: &String)
        ensures
            a@ == self@.address(),
    {
        match self {
            CacheEvent::BorrowStable { address, .. } => address,
            CacheEvent::RepayStable { address, .. } => address,
            CacheEvent::DepositCollateral { address, .. } => address,
            CacheEvent::WithdrawCollateral { address, .. } => address,
        }
    }
}

impl Loan {
    /// A copy of the position.
    pub fn duplicate(&self) -> (loan: Loan)
        ensures
            loan@ == self@,
    {
        Loan { amount: self.amount, collaterals: self.collaterals.duplicate() }
    }

    /// Applies an event to the position.
    pub fn apply(&mut self, event: &CacheEvent) -> (outcome: Applied)
        ensures
            (final(self)@, outcome) == old(self)@.after(event@),
            old(self)@.aligned(event@) ==> outcome == Applied::Done && final(self)@.held(event@.token())
                == Some(old(self)@.exact(event@)),
    {
        match event {
            CacheEvent::BorrowStable { amount, .. } => {
                match self.amount.checked_add(*amount) {
                    Some(value) => {
                        self.amount = value;
                        Applied::Done
                    },
                    None => Applied::Overflow,
                }
            },
            CacheEvent::RepayStable { amount, .. } => {
                match self.amount.checked_sub(*amount) {
                    Some(value) => {
                        self.amount = value;
                        Applied::Done
                    },
                    None => Applied::Overflow,
                }
            },
            CacheEvent::DepositCollateral { amount, contract_address, .. } => {
                let ghost before = self.collaterals;
                match self.collaterals.index_of(contract_address.as_str()) {
                    None => {
                        self.collaterals.insert(contract_address.clone(), *amount);
                        Applied::Done
                    },
                    Some(i) => {
                        proof {
                            before.lemma_entries();
                        }
                        let holding = self.collaterals.value_at_mut(i);
                        let outcome = match holding.checked_add(*amount) {
                            Some(value) => {
                                *holding = value;
                                Applied::Done
                            },
                            None => Applied::Overflow,
                        };
                        proof {
                            before.lemma_update(self.collaterals, i as int);
                            assert(before@.insert(contract_address@, before@[contract_address@]) =~= before@);
                        }
                        outcome
                    },
                }
            },
            CacheEvent::WithdrawCollateral { amount, contract_address, .. } => {
                let ghost before = self.collaterals;
                match self.collaterals.index_of(contract_address.as_str()) {
                    None => Applied::UnknownCollateral,
                    Some(i) => {
                        proof {
                            before.lemma_entries();
                        }
                        let holding = self.collaterals.value_at_mut(i);
                        let outcome = match holding.checked_sub(*amount) {
                            Some(value) => {
                                *holding = value;
                                Applied::Done
                            },
                            None => Applied::Overflow,
                        };
                        proof {
                            before.lemma_update(self.collaterals, i as int);
                            assert(before@.insert(contract_address@, before@[contract_address@]) =~= before@);
                        }
                        outcome
                    },
                }
            },
        }
    }
}

/// A cache containing data about borrowers and their loans.
pub struct AnchorCache {
    pub borrowers: Borrowers,
}

impl AnchorCache {
    /// A cache that tracks no borrower.
    pub fn new() -> (cache: Self)
        ensures
            cache.borrowers@ == Map::<Seq<char>, LoanView>::empty(),
    {
        AnchorCache { borrowers: StringMap::new() }
    }

    /// Applies an event to the ledger.
    ///
    /// The outcome and the new ledger are those of [`step`]. No borrower is
    /// added or removed, and an event on an untracked borrower leaves every
    /// entry as it was. An event that is aligned with the holding it changes
    /// is always applied, and leaves the sum of the mantissas there.
    pub fn apply(&mut self, event: &CacheEvent) -> (outcome: Applied)
        ensures
            (final(self).borrowers@, outcome) == step(old(self).borrowers@, event@),
            final(self).borrowers.keys() == old(self).borrowers.keys(),
            !old(self).borrowers@.contains_key(event@.address()) ==> final(self).borrowers.values() == old(
                self,
            ).borrowers.values(),
            old(self).borrowers@.contains_key(event@.address()) && old(self).borrowers@[event@.address()].aligned(
                event@,
            ) ==> outcome == Applied::Done && held(
                final(self).borrowers@,
                event@.address(),
                event@.token(),
            ) == Some(old(self).borrowers@[event@.address()].exact(event@)),
    {
        let ghost before = self.borrowers;
        match self.borrowers.index_of(event.address().as_str()) {
            None => Applied::UnknownBorrower,
            Some(i) => {
                proof {
                    before.lemma_entries();
                }
                let loan = self.borrowers.value_at_mut(i);
                let outcome = loan.apply(event);
                proof {
                    before.lemma_update(self.borrowers, i as int);
                }
                outcome
            },
        }
    }

    /// Applies a sequence of events in order.
    ///
    /// Where the events are [`steady`], the holding they change ends with
    /// what it had at the start plus the net change of the events.
    pub fn apply_all(&mut self, events: &Vec<CacheEvent>)
        ensures
            final(self).borrowers@ == after_events(old(self).borrowers@, event_views(events@)),
            final(self).borrowers.keys() == old(self).borrowers.keys(),
            steady(old(self).borrowers@, event_views(events@)) ==> held(
                final(self).borrowers@,
                events@[0]@.address(),
                events@[0]@.token(),
            ) == Some(
                DecimalValue {
                    mantissa: held(
                        old(self).borrowers@,
                        events@[0]@.address(),
                        events@[0]@.token(),
                    ).unwrap().mantissa + net_change(event_views(events@)),
                    scale: held(
                        old(self).borrowers@,
                        events@[0]@.address(),
                        events@[0]@.token(),
                    ).unwrap().scale,
                },
            ),
    {
        let ghost start = self.borrowers@;
        let ghost all = event_views(events@);
        let n = events.len();
        let mut i: usize = 0;
        assert(all.take(0) =~= Seq::<EventView>::empty());
        while i < n
            invariant
                i <= n,
                n == events@.len(),
                all == event_views(events@),
                start == old(self).borrowers@,
                self.borrowers@ == after_events(start, all.take(i as int)),
                self.borrowers.keys() == old(self).borrowers.keys(),
                steady(start, all) ==> held(self.borrowers@, all[0].address(), all[0].token()) == Some(
                    DecimalValue {
                        mantissa: held(start, all[0].address(), all[0].token()).unwrap().mantissa
                            + net_change(all.take(i as int)),
                        scale: held(start, all[0].address(), all[0].token()).unwrap().scale,
                    },
                ),
            decreases n - i,
        {
            proof {
                assert(all.take(i + 1).drop_last() =~= all.take(i as int));
                assert(all.take(i + 1).last() == all[i as int]);
                assert(all[i as int] == events@[i as int]@);
            }
            self.apply(&events[i]);
            i += 1;
        }
        assert(all.take(n as int) =~= all);
    }

    /// A copy of the ledger as it stands.
    pub fn snapshot(&self) -> (copy: Borrowers)
        ensures
            copy.wf(),
            copy.keys() == self.borrowers.keys(),
            entries(copy) == entries(self.borrowers),
            copy@ == self.borrowers@,
    {
        let mut copy: Borrowers = StringMap::new();
        let n = self.borrowers.len();
        let mut i: usize = 0;
        while i < n
            invariant
                i <= n,
                n == self.borrowers.keys().len(),
                self.borrowers.wf(),
                copy.wf(),
                copy.keys() == self.borrowers.keys().take(i as int),
                copy.values().len() == i,
                forall|j: int| 0 <= j < i ==> (#[trigger] copy.values()[j])@ == self.borrowers.values()[j]@,
            decreases n - i,
        {
            let key = self.borrowers.key_at(i).clone();
            let loan = self.borrowers.value_at(i).duplicate();
            copy.push(key, loan);
            assert(self.borrowers.keys().take(i as int).push(self.borrowers.keys()[i as int])
                =~= self.borrowers.keys().take(i + 1));
            i += 1;
        }
        proof {
            assert(self.borrowers.keys().take(n as int) =~= self.borrowers.keys());
            assert(entries(copy) =~= entries(self.borrowers));
            self.borrowers.lemma_entries();
            copy.lemma_view_is(self.borrowers@);
        }
        copy
    }

    /// Adds the positions of `seed` to the ledger. Where the ledger tracks a
    /// borrower of `seed` already, the position of `seed` replaces the one
    /// it had.
    pub fn seed_borrowers(&mut self, seed: &Borrowers)
        ensures
            final(self).borrowers@ == old(self).borrowers@.union_prefer_right(seed@),
    {
        let ghost start = self.borrowers@;
        let n = seed.len();
        let mut i: usize = 0;
        proof {
            assert(seed@.restrict(seed.keys().take(0).to_set()) =~= Map::<Seq<char>, LoanView>::empty());
            assert(start.union_prefer_right(Map::<Seq<char>, LoanView>::empty()) =~= start);
        }
        while i < n
            invariant
                i <= n,
                n == seed.keys().len(),
                seed.wf(),
                self.borrowers@ == start.union_prefer_right(
                    seed@.restrict(seed.keys().take(i as int).to_set()),
                ),
            decreases n - i,
        {
            let key = seed.key_at(i).clone();
            let loan = seed.value_at(i).duplicate();
            self.borrowers.insert(key, loan);
            proof {
                seed.lemma_entries();
                let sooner = seed.keys().take(i as int);
                let later = seed.keys().take(i + 1);
                let added = seed.keys()[i as int];
                assert(later =~= sooner.push(added));
                assert forall|k: Seq<char>| later.to_set().contains(k) <==> sooner.to_set().contains(k) || k
                    == added by {
                    if k == added {
                        assert(later[i as int] == k);
                    }
                    if sooner.contains(k) {
                        let j = choose|j: int| 0 <= j < sooner.len() && sooner[j] == k;
                        assert(later[j] == k);
                    }
                    if later.contains(k) && k != added {
                        let j = choose|j: int| 0 <= j < later.len() && later[j] == k;
                        assert(sooner[j] == k);
                    }
                }
                assert(self.borrowers@ =~= start.union_prefer_right(seed@.restrict(later.to_set())));
            }
            i += 1;
        }
        proof {
            seed.lemma_entries();
            assert(seed.keys().take(n as int) =~= seed.keys());
            assert(seed@.restrict(seed.keys().to_set()) =~= seed@);
        }
    }
}

/// The borrowers that become liquidatable at one price, and the collateral
/// they hold.
#[derive(Debug, Clone, PartialEq)]
pub struct LiquidationLevel {
    pub bluna_vol: Decimal,
    pub beth_vol: Decimal,
    pub borrowers: Vec<String>,
}

/// The content of a [`LiquidationLevel`].
pub struct LevelView {
    pub bluna_vol: DecimalValue,
    pub beth_vol: DecimalValue,
    pub borrowers: Seq<Seq<char>>,
}

impl View for LiquidationLevel {
    type V = LevelView;

    open spec fn view(&self) -> LevelView {
        LevelView {
            bluna_vol: self.bluna_vol@,
            beth_vol: self.beth_vol@,
            borrowers: Seq::new(self.borrowers@.len(), |i: int| self.borrowers@[i]@),
        }
    }
}

/// The liquidation levels by price. A key is a price in tenths, so the level
/// at `26.7` stands under `267`.
pub type LiquidationLevels = BTreeMap<i128, LiquidationLevel>;

/// The content of the levels of a report.
pub type Levels = Map<int, LevelView>;

/// The content of [`LiquidationLevels`].
pub open spec fn levels_view(levels: Map<i128, LiquidationLevel>) -> Levels {
    Map::new(
        |k: int| i128::MIN <= k <= i128::MAX && levels.contains_key(k as i128),
        |k: int| levels[k as i128]@,
    )
}

/// Where a borrower goes in a report, and with what collateral.
pub struct Placement {
    pub key: int,
    pub bluna: DecimalValue,
    pub beth: DecimalValue,
}

/// The placement under an executable key.
pub open spec fn placement_at(key: i128, bluna: DecimalValue, beth: DecimalValue) -> Placement {
    Placement { key: key as int, bluna, beth }
}

/// The key of the level of a liquidation price: the price in tenths, after
/// rounding to one fractional digit. A price that is not above zero has none.
pub open spec fn bucket_key_spec(price: DecimalValue) -> Option<int> {
    if price.mantissa > 0 {
        Some(tenths(price))
    } else {
        None
    }
}

/// Where a position goes in a report, if anywhere.
///
/// A position without bLUNA collateral goes nowhere, and so does one whose
/// liquidation price cannot be computed or is not above zero. bETH that is
/// not held counts as zero.
pub open spec fn placement(loan: LoanView, beth_price: DecimalValue, max_ltv: DecimalValue) -> Option<Placement> {
    if !loan.collaterals.contains_key(Contracts::BLUNA@) {
        None
    } else {
        let bluna = loan.collaterals[Contracts::BLUNA@];
        let beth = if loan.collaterals.contains_key(Contracts::BETH@) {
            loan.collaterals[Contracts::BETH@]
        } else {
            DecimalValue { mantissa: 0, scale: 0 }
        };
        match liquidation_price_multi_spec(loan.amount, beth, beth_price, bluna, max_ltv) {
            Err(_) => None,
            Ok(price) => match bucket_key_spec(price) {
                None => None,
                Some(key) => Some(Placement { key, bluna, beth }),
            },
        }
    }
}

/// The levels with one more borrower.
///
/// The first borrower of a level opens it with its own collateral. A later
/// one adds its collateral to the level's volumes and its address to the
/// end of the members; where a volume would not fit a decimal, the borrower
/// is left out.
pub open spec fn placed(levels: Levels, address: Seq<char>, p: Placement) -> Levels {
    if levels.contains_key(p.key) {
        let level = levels[p.key];
        match (sum(level.bluna_vol, p.bluna), sum(level.beth_vol, p.beth)) {
            (Some(bluna_vol), Some(beth_vol)) => levels.insert(
                p.key,
                LevelView { bluna_vol, beth_vol, borrowers: level.borrowers.push(address) },
            ),
            _ => levels,
        }
    } else {
        levels.insert(p.key, LevelView { bluna_vol: p.bluna, beth_vol: p.beth, borrowers: seq![address] })
    }
}

/// The levels after taking one ledger entry into account.
pub open spec fn recorded(
    levels: Levels,
    address: Seq<char>,
    loan: LoanView,
    beth_price: DecimalValue,
    max_ltv: DecimalValue,
) -> Levels {
    match placement(loan, beth_price, max_ltv) {
        None => levels,
        Some(p) => placed(levels, address, p),
    }
}

/// The levels of a ledger: its entries taken into account one by one, in
/// ascending address order.
pub open spec fn levels_of(
    entries: Seq<(Seq<char>, LoanView)>,
    beth_price: DecimalValue,
    max_ltv: DecimalValue,
) -> Levels
    decreases entries.len(),
{
    if entries.len() == 0 {
        Map::empty()
    } else {
        recorded(
            levels_of(entries.drop_last(), beth_price, max_ltv),
            entries.last().0,
            entries.last().1,
            beth_price,
            max_ltv,
        )
    }
}

/// The key of the level of a liquidation price, if it has one.
pub fn bucket_key(price: &Decimal) -> (key: Option<i128>)
    ensures
        match key {
            Some(k) => bucket_key_spec(price@) == Some(k as int),
            None => bucket_key_spec(price@) is None,
        },
{
    if price.is_positive() {
        Some(price.tenths())
    } else {
        None
    }
}

/// Puts a borrower with its collateral into the level under `key`.
pub fn place(levels: &mut LiquidationLevels, address: &String, key: i128, bluna: Decimal, beth: Decimal)
    ensures
        levels_view(final(levels)@) == placed(levels_view(old(levels)@), address@, placement_at(key, bluna@, beth@)),
{
    broadcast use vstd::laws_cmp::group_laws_cmp;
    broadcast use vstd::std_specs::btree::group_btree_axioms;

    let ghost before = levels@;
    match levels.remove(&key) {
        None => {
            let mut borrowers: Vec<String> = Vec::new();
            borrowers.push(address.clone());
            let level = LiquidationLevel { bluna_vol: bluna, beth_vol: beth, borrowers };
            assert(level@.borrowers =~= seq![address@]);
            levels.insert(key, level);
        },
        Some(level) => {
            let mut level = level;
            let ghost members = level@.borrowers;
            match level.bluna_vol.checked_add(bluna) {
                None => {},
                Some(bluna_vol) => match level.beth_vol.checked_add(beth) {
                    None => {},
                    Some(beth_vol) => {
                        level.bluna_vol = bluna_vol;
                        level.beth_vol = beth_vol;
                        level.borrowers.push(address.clone());
                        assert(level@.borrowers =~= members.push(address@));
                    },
                },
            }
            levels.insert(key, level);
        },
    }
    assert(levels_view(levels@) =~= placed(levels_view(before), address@, placement_at(key, bluna@, beth@)));
}

/// Takes one ledger entry into account.
pub fn record(
    levels: &mut LiquidationLevels,
    address: &String,
    loan: &Loan,
    beth_price: &Decimal,
    max_ltv: &Decimal,
)
    ensures
        levels_view(final(levels)@) == recorded(
            levels_view(old(levels)@),
            address@,
            loan@,
            beth_price@,
            max_ltv@,
        ),
{
    match loan.collaterals.get(Contracts::BLUNA) {
        None => {},
        Some(bluna) => {
            let beth = match loan.collaterals.get(Contracts::BETH) {
                Some(held) => *held,
                None => Decimal::new(0, 0),
            };
            match liquidation_price_multi(&loan.amount, &beth, beth_price, bluna, max_ltv) {
                Err(_) => {},
                Ok(price) => match bucket_key(&price) {
                    None => {},
                    Some(key) => {
                        place(levels, address, key, *bluna, beth);
                    },
                },
            }
        },
    }
}

/// Groups the borrowers of a ledger by liquidation price, for a given price
/// of bETH and a given maximum loan-to-value ratio.
pub fn liquidation_levels(borrowers: &Borrowers, beth_price: &Decimal, max_ltv: &Decimal) -> (levels:
    LiquidationLevels)
    ensures
        levels_view(levels@) == levels_of(entries(*borrowers), beth_price@, max_ltv@),
        forall|key: int| #[trigger]
            levels_view(levels@).contains_key(key) ==> levels_view(levels@)[key].borrowers.no_duplicates(),
{
    let mut levels: LiquidationLevels = BTreeMap::new();
    let n = borrowers.len();
    let mut i: usize = 0;
    proof {
        assert(entries(*borrowers).take(0) =~= Seq::<(Seq<char>, LoanView)>::empty());
        assert(levels_view(levels@) =~= Map::<int, LevelView>::empty());
    }
    while i < n
        invariant
            i <= n,
            n == borrowers.keys().len(),
            borrowers.wf(),
            levels_view(levels@) == levels_of(entries(*borrowers).take(i as int), beth_price@, max_ltv@),
        decreases n - i,
    {
        proof {
            let now = entries(*borrowers).take(i + 1);
            assert(now.drop_last() =~= entries(*borrowers).take(i as int));
            assert(now.last() == entries(*borrowers)[i as int]);
        }
        record(&mut levels, borrowers.key_at(i), borrowers.value_at(i), beth_price, max_ltv);
        i += 1;
    }
    proof {
        assert(entries(*borrowers).take(n as int) =~= entries(*borrowers));
        lemma_ledger_addresses_are_distinct(*borrowers);
        lemma_members_are_distinct(entries(*borrowers), beth_price@, max_ltv@);
    }
    levels
}

/// Whether entry `i` of a ledger is a borrower `address` that is placed
/// under `key`.
pub open spec fn places(
    entries: Seq<(Seq<char>, LoanView)>,
    beth_price: DecimalValue,
    max_ltv: DecimalValue,
    i: int,
    address: Seq<char>,
    key: int,
) -> bool {
    &&& 0 <= i < entries.len()
    &&& entries[i].0 == address
    &&& placement(entries[i].1, beth_price, max_ltv) matches Some(p)
    &&& p.key == key
}

/// Every member of a level is a borrower of the ledger that is placed there:
/// it holds bLUNA, and its liquidation price is above zero and rounds to the
/// level's key. So a borrower without bLUNA, or with a liquidation price
/// that is not above zero, is in no level.
pub proof fn lemma_members_are_placed(
    entries: Seq<(Seq<char>, LoanView)>,
    beth_price: DecimalValue,
    max_ltv: DecimalValue,
    key: int,
    address: Seq<char>,
)
    requires
        levels_of(entries, beth_price, max_ltv).contains_key(key),
        levels_of(entries, beth_price, max_ltv)[key].borrowers.contains(address),
    ensures
        exists|i: int| #[trigger] places(entries, beth_price, max_ltv, i, address, key),
        forall|i: int| #[trigger]
            places(entries, beth_price, max_ltv, i, address, key) ==> {
                &&& entries[i].1.collaterals.contains_key(Contracts::BLUNA@)
                &&& liquidation_price_multi_spec(
                    entries[i].1.amount,
                    if entries[i].1.collaterals.contains_key(Contracts::BETH@) {
                        entries[i].1.collaterals[Contracts::BETH@]
                    } else {
                        DecimalValue { mantissa: 0, scale: 0 }
                    },
                    beth_price,
                    entries[i].1.collaterals[Contracts::BLUNA@],
                    max_ltv,
                ) matches Ok(price)
                &&& price.mantissa > 0
                &&& key == tenths(price)
            },
    decreases entries.len(),
{
    let rest = entries.drop_last();
    let before = levels_of(rest, beth_price, max_ltv);
    let last = entries.len() - 1;
    let inherited = before.contains_key(key) && before[key].borrowers.contains(address);
    if inherited {
        lemma_members_are_placed(rest, beth_price, max_ltv, key, address);
        let i = choose|i: int| #[trigger] places(rest, beth_price, max_ltv, i, address, key);
        assert(places(entries, beth_price, max_ltv, i, address, key));
    } else {
        let p = placement(entries[last].1, beth_price, max_ltv).unwrap();
        if before.contains_key(p.key) && p.key == key {
            let j = choose|j: int|
                0 <= j < levels_of(entries, beth_price, max_ltv)[key].borrowers.len() && levels_of(
                    entries,
                    beth_price,
                    max_ltv,
                )[key].borrowers[j] == address;
            if j < before[key].borrowers.len() {
                assert(before[key].borrowers[j] == address);
            }
        }
        assert(places(entries, beth_price, max_ltv, last, address, key));
    }
}

/// Whether no address stands twice among the entries.
pub open spec fn distinct_addresses(entries: Seq<(Seq<char>, LoanView)>) -> bool {
    forall|i: int, j: int| 0 <= i < j < entries.len() ==> entries[i].0 != entries[j].0
}

/// No address stands twice in a ledger.
pub proof fn lemma_ledger_addresses_are_distinct(borrowers: Borrowers)
    requires
        borrowers.wf(),
    ensures
        distinct_addresses(entries(borrowers)),
{
    borrowers.lemma_entries();
}

/// The members of the levels are a set: no borrower is twice in a level, and
/// none is in two levels.
pub proof fn lemma_members_are_distinct(
    entries: Seq<(Seq<char>, LoanView)>,
    beth_price: DecimalValue,
    max_ltv: DecimalValue,
)
    requires
        distinct_addresses(entries),
    ensures
        forall|key: int| #[trigger]
            levels_of(entries, beth_price, max_ltv).contains_key(key) ==> levels_of(
                entries,
                beth_price,
                max_ltv,
            )[key].borrowers.no_duplicates(),
        forall|first: int, second: int, address: Seq<char>|
            #![trigger
                levels_of(entries, beth_price, max_ltv)[first].borrowers.contains(address),
                levels_of(entries, beth_price, max_ltv)[second].borrowers.contains(address)
            ]
            levels_of(entries, beth_price, max_ltv).contains_key(first) && levels_of(
                entries,
                beth_price,
                max_ltv,
            ).contains_key(second) && levels_of(entries, beth_price, max_ltv)[first].borrowers.contains(address)
                && levels_of(entries, beth_price, max_ltv)[second].borrowers.contains(address) ==> first
                == second,
    decreases entries.len(),
{
    if entries.len() > 0 {
        let rest = entries.drop_last();
        let last = entries.len() - 1;
        let newcomer = entries[last].0;
        let before = levels_of(rest, beth_price, max_ltv);
        let after = levels_of(entries, beth_price, max_ltv);
        assert(distinct_addresses(rest)) by {
            assert forall|i: int, j: int| 0 <= i < j < rest.len() implies rest[i].0 != rest[j].0 by {
                assert(rest[i] == entries[i] && rest[j] == entries[j]);
            }
        }
        lemma_members_are_distinct(rest, beth_price, max_ltv);
        assert forall|key: int| before.contains_key(key) implies !before[key].borrowers.contains(newcomer) by {
            if before[key].borrowers.contains(newcomer) {
                lemma_members_are_placed(rest, beth_price, max_ltv, key, newcomer);
                let i = choose|i: int| #[trigger] places(rest, beth_price, max_ltv, i, newcomer, key);
                assert(rest[i] == entries[i]);
            }
        }
        assert forall|key: int, address: Seq<char>|
            after.contains_key(key) && after[key].borrowers.contains(address) && address != newcomer implies before.contains_key(
            key,
        ) && before[key].borrowers.contains(address) by {
            let members = after[key].borrowers;
            let j = choose|j: int| 0 <= j < members.len() && members[j] == address;
            if before.contains_key(key) && j < before[key].borrowers.len() {
                assert(before[key].borrowers[j] == address);
            }
        }
        assert forall|key: int, address: Seq<char>|
            after.contains_key(key) && after[key].borrowers.contains(address) && address == newcomer implies placement(
            entries[last].1,
            beth_price,
            max_ltv,
        ) matches Some(p) && p.key == key by {
            let members = after[key].borrowers;
            let j = choose|j: int| 0 <= j < members.len() && members[j] == address;
            if before.contains_key(key) && j < before[key].borrowers.len() {
                assert(before[key].borrowers[j] == address);
            }
        }
        assert forall|key: int| #[trigger] after.contains_key(key) implies after[key].borrowers.no_duplicates() by {
            let members = after[key].borrowers;
            assert forall|i: int, j: int| 0 <= i < members.len() && 0 <= j < members.len() && i != j implies members[i]
                != members[j] by {
                if before.contains_key(key) {
                    let old_members = before[key].borrowers;
                    if i < old_members.len() {
                        assert(old_members[i] == members[i]);
                        assert(old_members.contains(members[i]));
                    }
                    if j < old_members.len() {
                        assert(old_members[j] == members[j]);
                        assert(old_members.contains(members[j]));
                    }
                }
            }
        }
        assert forall|first: int, second: int, address: Seq<char>|
            after.contains_key(first) && after.contains_key(second) && after[first].borrowers.contains(address)
                && after[second].borrowers.contains(address) implies first == second by {
            if address != newcomer {
                assert(before[first].borrowers.contains(address));
                assert(before[second].borrowers.contains(address));
            }
        }
    }
}

/// A report is a function of the ledger, the price of bETH and the maximum
/// loan-to-value ratio: two reports of the same inputs have the same
/// content.
pub proof fn lemma_levels_depend_on_inputs_alone(
    first: LiquidationLevels,
    second: LiquidationLevels,
    borrowers: Borrowers,
    beth_price: DecimalValue,
    max_ltv: DecimalValue,
)
    requires
        levels_view(first@) == levels_of(entries(borrowers), beth_price, max_ltv),
        levels_view(second@) == levels_of(entries(borrowers), beth_price, max_ltv),
    ensures
        levels_view(first@) == levels_view(second@),
{
}

} // verus!
