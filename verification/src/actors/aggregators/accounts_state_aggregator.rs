//! The aggregator that keeps the latest state of every account.
//!
//! A row's total is what is available plus what is held. An event whose
//! total cannot be represented is not taken in: the row keeps what it had.

use crate::actors::aggregators::Aggregator;
use crate::actors::aggregators::AggregatorActor;
use crate::domain::account::AccountErrors;
use crate::domain::account::AccountView;
use crate::domain::amount::checked_sum;
use crate::domain::amount::Amount;
use crate::domain::amount::Dec;
use crate::domain::events::AllEvents;
use crate::domain::events::EventView;
use std::collections::HashMap;
use vstd::prelude::*;

verus! {

/// The latest state of one account.
#[derive(Clone, Copy, Debug)]
pub struct AccountState {
    pub client: u32,
    pub available: Amount,
    pub held: Amount,
    pub total: Amount,
    pub locked: bool,
}

/// The mathematical content of a row.
pub struct AccountStateView {
    pub client: u32,
    pub available: Dec,
    pub held: Dec,
    pub total: Dec,
    pub locked: bool,
}

impl View for AccountState {
    type V = AccountStateView;

    open spec fn view(&self) -> AccountStateView {
        AccountStateView {
            client: self.client,
            available: self.available@,
            held: self.held@,
            total: self.total@,
            locked: self.locked,
        }
    }
}

impl AccountStateView {
    /// The total is the sum of what is available and what is held.
    pub open spec fn balanced(self) -> bool {
        checked_sum(self.available, self.held) == Some(self.total)
    }
}

/// The rows after an event: the row of the event's account tells what the
/// event tells, with the total beside it, unless there is no such total.
pub open spec fn rows_after(rows: Map<u32, AccountStateView>, event: EventView) -> Map<
    u32,
    AccountStateView,
> {
    match event {
        EventView::AccountUpdated { account_id, transaction_id, amount, held, locked } => {
            match checked_sum(amount, held) {
                Some(total) => rows.insert(
                    account_id,
                    AccountStateView { client: account_id, available: amount, held, total, locked },
                ),
                None => rows,
            }
        },
    }
}

/// Every row is filed under its own client and is balanced.
pub open spec fn rows_wf(rows: Map<u32, AccountStateView>) -> bool {
    forall|client: u32| #[trigger]
        rows.contains_key(client) ==> rows[client].client == client && rows[client].balanced()
}

/// The latest state of every account that an event told of.
#[derive(Clone, Debug)]
pub struct AccountsStateAggregator {
    pub accounts: HashMap<u32, AccountState>,
}

impl View for AccountsStateAggregator {
    type V = Map<u32, AccountStateView>;

    open spec fn view(&self) -> Map<u32, AccountStateView> {
        self.accounts@.map_values(|row: AccountState| row@)
    }
}

impl Default for AccountsStateAggregator {
    fn default() -> (aggregator: AccountsStateAggregator)
        ensures
            aggregator@ == Map::<u32, AccountStateView>::empty(),
    {
        let aggregator = AccountsStateAggregator { accounts: HashMap::new() };
        assert(aggregator@ =~= Map::<u32, AccountStateView>::empty());
        aggregator
    }
}

impl Aggregator for AccountsStateAggregator {
    type Event = AllEvents;

    open spec fn folds(
        before: AccountsStateAggregator,
        event: AllEvents,
        after: AccountsStateAggregator,
    ) -> bool {
        after@ == rows_after(before@, event@)
    }

    fn handle(&mut self, event: AllEvents) {
        match event {
            AllEvents::AccountUpdated { account_id, amount, held, locked, .. } => {
                match amount.checked_add(held) {
                    Some(total) => {
                        let ghost before = self@;
                        let state = AccountState {
                            client: account_id,
                            available: amount,
                            held,
                            total,
                            locked,
                        };
                        self.accounts.insert(account_id, state);
                        assert(self@ =~= before.insert(account_id, state@));
                    },
                    None => {},
                }
            },
        }
    }
}

impl AccountsStateAggregator {
    /// The row of a client, if an event told of it.
    pub fn get(&self, client: u32) -> (row: Option<AccountState>)
        ensures
            row is Some <==> self@.contains_key(client),
            row matches Some(r) ==> r@ == self@[client],
    {
        match self.accounts.get(&client) {
            Some(row) => Some(*row),
            None => None,
        }
    }
}

pub type AccountsStateActor = AggregatorActor<AccountsStateAggregator>;

/// Taking an event in keeps every row under its own client and balanced.
pub proof fn law_rows_stay_balanced(rows: Map<u32, AccountStateView>, event: EventView)
    requires
        rows_wf(rows),
    ensures
        rows_wf(rows_after(rows, event)),
{
}

/// The row of an account tells what the account's latest event told,
/// whenever its total can be represented.
pub proof fn law_row_tells_event(rows: Map<u32, AccountStateView>, s: AccountView, tx: u32)
    requires
        checked_sum(s.available, s.held) is Some,
    ensures
        rows_after(rows, s.updated(tx)).contains_key(s.id),
        rows_after(rows, s.updated(tx))[s.id].available == s.available,
        rows_after(rows, s.updated(tx))[s.id].held == s.held,
        rows_after(rows, s.updated(tx))[s.id].locked == s.locked,
        rows_after(rows, s.updated(tx))[s.id].balanced(),
{
}

/// After a charge-back the account's row is locked, whenever its total can
/// be represented.
pub proof fn law_chargeback_locks_row(
    rows: Map<u32, AccountStateView>,
    s: AccountView,
    tx: u32,
    t: AccountView,
)
    requires
        s.chargeback(tx) == Ok::<AccountView, AccountErrors>(t),
        checked_sum(t.available, t.held) is Some,
    ensures
        rows_after(rows, t.updated(tx)).contains_key(s.id),
        rows_after(rows, t.updated(tx))[s.id].locked,
{
}

} // verus!
