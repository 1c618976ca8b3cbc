//! One account: its balance, the ledger of what each transaction moved, and
//! the transactions under dispute.
//!
//! A deposit or withdrawal under a transaction id that is already recorded
//! is applied like any other, and what it moves replaces the ledger's entry
//! for that id. A dispute is open to a transaction that was applied and is
//! neither disputed nor charged back; every other dispute finds no
//! transaction.

use crate::domain::amount::checked_difference;
use crate::domain::amount::checked_sum;
use crate::domain::amount::Amount;
use crate::domain::amount::Dec;
use crate::domain::events::AllEvents;
use crate::domain::events::EventView;
use crate::domain::money::Currency;
use crate::domain::money::Money;
use crate::domain::money::MoneyErrors;
use crate::domain::DomainResult;
use crate::order::is_ordering_of;
use crate::order::lemma_ordering_exists;
use crate::order::lemma_set_walk;
use crate::order::ordered;
use std::collections::BTreeMap;
use std::collections::BTreeSet;
use vstd::prelude::*;

verus! {

#[derive(PartialEq, Eq, Clone, Copy, Debug, Structural)]
pub enum AccountErrors {
    MoneyErrors(MoneyErrors),
    NegativeAmount,
    TransactionNotFound,
}

/// Where a transaction stands within an account.
#[derive(PartialEq, Eq, Clone, Copy, Debug, Structural)]
pub enum TxState {
    Unknown,
    Applied,
    Disputed,
    ChargedBack,
}

pub type AccountDomainResult<T> = DomainResult<T, AccountErrors, AllEvents>;

/// The sum of the ledger's amounts for the transactions of `order`, added
/// one after the other from the left, starting at zero; `None` as soon as a
/// sum overflows.
pub open spec fn held_total(ledger: Map<u32, Dec>, order: Seq<u32>) -> Option<Dec>
    decreases order.len(),
{
    if order.len() == 0 {
        Some(crate::domain::amount::zero())
    } else {
        match held_total(ledger, order.drop_last()) {
            Some(acc) => checked_sum(acc, ledger[order.last()]),
            None => None,
        }
    }
}

/// The mathematical state of an account.
pub struct AccountView {
    pub id: u32,
    pub currency: Currency,
    /// What can be spent.
    pub available: Dec,
    /// What is set aside by disputes.
    pub held: Dec,
    /// What each recorded transaction moved: positive for a deposit,
    /// negative for a withdrawal.
    pub ledger: Map<u32, Dec>,
    pub disputed: Set<u32>,
    pub charged_back: Set<u32>,
    pub locked: bool,
}

impl AccountView {
    /// The ledger is finite, disputed and charged-back transactions are
    /// recorded ones, no transaction is both, and `held` is the total of the
    /// disputed amounts.
    pub open spec fn wf(self) -> bool {
        &&& self.available.wf()
        &&& self.held.wf()
        &&& self.ledger.dom().finite()
        &&& forall|tx: u32| #[trigger] self.ledger.contains_key(tx) ==> self.ledger[tx].wf()
        &&& self.disputed.finite()
        &&& forall|tx: u32| #[trigger] self.disputed.contains(tx) ==> self.ledger.contains_key(tx)
        &&& forall|tx: u32| #[trigger]
            self.charged_back.contains(tx) ==> self.ledger.contains_key(tx)
                && !self.disputed.contains(tx)
        &&& held_total(self.ledger, ordered(self.disputed)) == Some(self.held)
    }

    /// A new account: nothing recorded, nothing available, in bitcoin.
    pub open spec fn opened(id: u32) -> AccountView {
        AccountView {
            id,
            currency: Currency::Bitcoin,
            available: crate::domain::amount::zero(),
            held: crate::domain::amount::zero(),
            ledger: Map::empty(),
            disputed: Set::empty(),
            charged_back: Set::empty(),
            locked: false,
        }
    }

    /// The event that tells this state, as transaction `tx` left it.
    pub open spec fn updated(self, tx: u32) -> EventView {
        EventView::AccountUpdated {
            account_id: self.id,
            transaction_id: tx,
            amount: self.available,
            held: self.held,
            locked: self.locked,
        }
    }

    pub open spec fn state_of(self, tx: u32) -> TxState {
        if !self.ledger.contains_key(tx) {
            TxState::Unknown
        } else if self.charged_back.contains(tx) {
            TxState::ChargedBack
        } else if self.disputed.contains(tx) {
            TxState::Disputed
        } else {
            TxState::Applied
        }
    }

    /// What is held once the ledger says `delta` for `tx`. Only the entry of
    /// a disputed transaction counts towards the held total, so for any
    /// other `tx` nothing changes.
    pub open spec fn held_with(self, tx: u32, delta: Dec) -> Option<Dec> {
        if self.disputed.contains(tx) {
            held_total(self.ledger.insert(tx, delta), ordered(self.disputed))
        } else {
            Some(self.held)
        }
    }

    /// The account after a deposit, or the reason why it is refused.
    pub open spec fn deposit(self, tx: u32, amount: Money) -> Result<AccountView, AccountErrors> {
        if amount.currency != self.currency {
            Err(AccountErrors::MoneyErrors(MoneyErrors::MismatchedCurrencies))
        } else {
            match checked_sum(self.available, amount.amount@) {
                None => Err(AccountErrors::MoneyErrors(MoneyErrors::Overflow)),
                Some(available) => match self.held_with(tx, amount.amount@) {
                    None => Err(AccountErrors::MoneyErrors(MoneyErrors::Overflow)),
                    Some(held) => Ok(
                        AccountView {
                            available,
                            held,
                            ledger: self.ledger.insert(tx, amount.amount@),
                            ..self
                        },
                    ),
                },
            }
        }
    }

    /// The account after a withdrawal, or the reason why it is refused. A
    /// withdrawal never takes the available balance below zero.
    pub open spec fn withdraw(self, tx: u32, amount: Money) -> Result<AccountView, AccountErrors> {
        if amount.currency != self.currency {
            Err(AccountErrors::MoneyErrors(MoneyErrors::MismatchedCurrencies))
        } else {
            match checked_difference(self.available, amount.amount@) {
                None => Err(AccountErrors::MoneyErrors(MoneyErrors::Underflow)),
                Some(available) => if available.mantissa < 0 {
                    Err(AccountErrors::NegativeAmount)
                } else {
                    match self.held_with(tx, amount.amount@.negated()) {
                        None => Err(AccountErrors::MoneyErrors(MoneyErrors::Overflow)),
                        Some(held) => Ok(
                            AccountView {
                                available,
                                held,
                                ledger: self.ledger.insert(tx, amount.amount@.negated()),
                                ..self
                            },
                        ),
                    }
                },
            }
        }
    }

    /// The account after a dispute moved the transaction's amount from
    /// available to held, or the reason why it is refused.
    pub open spec fn dispute(self, tx: u32) -> Result<AccountView, AccountErrors> {
        if self.state_of(tx) != TxState::Applied {
            Err(AccountErrors::TransactionNotFound)
        } else {
            match checked_difference(self.available, self.ledger[tx]) {
                None => Err(AccountErrors::MoneyErrors(MoneyErrors::Underflow)),
                Some(available) => {
                    let disputed = self.disputed.insert(tx);
                    match held_total(self.ledger, ordered(disputed)) {
                        None => Err(AccountErrors::MoneyErrors(MoneyErrors::Overflow)),
                        Some(held) => Ok(AccountView { available, held, disputed, ..self }),
                    }
                },
            }
        }
    }

    /// The account after a dispute ended with the amount back in available,
    /// or the reason why it is refused.
    pub open spec fn resolve(self, tx: u32) -> Result<AccountView, AccountErrors> {
        if self.state_of(tx) != TxState::Disputed {
            Err(AccountErrors::TransactionNotFound)
        } else {
            match checked_sum(self.available, self.ledger[tx]) {
                None => Err(AccountErrors::MoneyErrors(MoneyErrors::Overflow)),
                Some(available) => {
                    let disputed = self.disputed.remove(tx);
                    match held_total(self.ledger, ordered(disputed)) {
                        None => Err(AccountErrors::MoneyErrors(MoneyErrors::Overflow)),
                        Some(held) => Ok(AccountView { available, held, disputed, ..self }),
                    }
                },
            }
        }
    }

    /// The account after a dispute ended with the amount gone and the account
    /// locked, or the reason why it is refused.
    pub open spec fn chargeback(self, tx: u32) -> Result<AccountView, AccountErrors> {
        if self.state_of(tx) != TxState::Disputed {
            Err(AccountErrors::TransactionNotFound)
        } else {
            let disputed = self.disputed.remove(tx);
            match held_total(self.ledger, ordered(disputed)) {
                None => Err(AccountErrors::MoneyErrors(MoneyErrors::Overflow)),
                Some(held) => Ok(
                    AccountView {
                        held,
                        disputed,
                        charged_back: self.charged_back.insert(tx),
                        locked: true,
                        ..self
                    },
                ),
            }
        }
    }
}

/// What a call returned and left behind is what `step` says: on success the
/// new state and the one event that reports it, on failure the error and the
/// state untouched.
pub open spec fn carries_out(
    r: AccountDomainResult<()>,
    before: AccountView,
    after: AccountView,
    step: Result<AccountView, AccountErrors>,
    tx: u32,
) -> bool {
    match step {
        Ok(next) => {
            &&& after == next
            &&& r matches DomainResult::Done { data, events }
            &&& events@.len() == 1
            &&& events@[0]@ == next.updated(tx)
        },
        Err(e) => {
            &&& after == before
            &&& r matches DomainResult::Failed(x)
            &&& x == e
        },
    }
}

/// The values of a ledger.
pub open spec fn ledger_view(ledger: Map<u32, Amount>) -> Map<u32, Dec> {
    ledger.map_values(|a: Amount| a@)
}

/// The total depends on the ledger only at the transactions it adds up.
pub proof fn lemma_held_total_frame(l1: Map<u32, Dec>, l2: Map<u32, Dec>, order: Seq<u32>)
    requires
        forall|i: int| 0 <= i < order.len() ==> l1[#[trigger] order[i]] == l2[order[i]],
    ensures
        held_total(l1, order) == held_total(l2, order),
    decreases order.len(),
{
    if order.len() > 0 {
        let front = order.drop_last();
        assert forall|i: int| 0 <= i < front.len() implies l1[#[trigger] front[i]] == l2[front[i]] by {
            assert(front[i] == order[i]);
        }
        lemma_held_total_frame(l1, l2, front);
        assert(order.last() == order[order.len() - 1]);
    }
}

/// Once a sum has overflowed, the total is lost.
pub proof fn lemma_held_total_prefix(ledger: Map<u32, Dec>, order: Seq<u32>, k: int)
    requires
        0 <= k <= order.len(),
        held_total(ledger, order.take(k)) is None,
    ensures
        held_total(ledger, order) is None,
    decreases order.len() - k,
{
    if k < order.len() {
        assert(order.take(k + 1).drop_last() =~= order.take(k));
        lemma_held_total_prefix(ledger, order, k + 1);
    } else {
        assert(order.take(k) =~= order);
    }
}

/// An account: its identification, what is available, what is held, and the
/// record of every transaction applied to it.
#[derive(Debug)]
pub struct Account {
    id: u32,
    amount: Money,
    held: Amount,
    ledger: BTreeMap<u32, Amount>,
    in_dispute: BTreeSet<u32>,
    charged_back: BTreeSet<u32>,
    locked: bool,
}

impl View for Account {
    type V = AccountView;

    closed spec fn view(&self) -> AccountView {
        AccountView {
            id: self.id,
            currency: self.amount.currency,
            available: self.amount.amount@,
            held: self.held@,
            ledger: ledger_view(self.ledger@),
            disputed: self.in_dispute@,
            charged_back: self.charged_back@,
            locked: self.locked,
        }
    }
}

impl Clone for Account {
    fn clone(&self) -> (copy: Account)
        ensures
            copy@ == self@,
    {
        proof {
            use_type_invariant(self);
        }
        let ledger = self.ledger.clone();
        let in_dispute = self.in_dispute.clone();
        let charged_back = self.charged_back.clone();
        Account {
            id: self.id,
            amount: self.amount,
            held: self.held,
            ledger,
            in_dispute,
            charged_back,
            locked: self.locked,
        }
    }
}

/// Adds up the ledger's amounts of the given transactions in ascending order.
fn total_held(ledger: &BTreeMap<u32, Amount>, set: &BTreeSet<u32>) -> (r: Option<Amount>)
    requires
        forall|tx: u32| set@.contains(tx) ==> ledger@.contains_key(tx),
    ensures
        match r {
            Some(h) => held_total(ledger_view(ledger@), ordered(set@)) == Some(h@),
            None => held_total(ledger_view(ledger@), ordered(set@)) is None,
        },
{
    let ghost values = ledger_view(ledger@);
    let ghost order = ordered(set@);
    let mut acc = Amount::zero();
    proof {
        lemma_set_walk(set);
        assert(order.take(0) =~= Seq::<u32>::empty());
    }
    for tx in it: set.iter()
        invariant
            it.seq().unref() == order,
            order == ordered(set@),
            is_ordering_of(order, set@),
            values == ledger_view(ledger@),
            forall|tx: u32| set@.contains(tx) ==> ledger@.contains_key(tx),
            held_total(values, order.take(it.index() as int)) == Some(acc@),
    {
        let ghost i = it.index() as int;
        proof {
            assert(order[i] == *tx);
            assert(order.to_set().contains(order[i]));
        }
        let delta = match ledger.get(tx) {
            Some(d) => *d,
            None => Amount::zero(),
        };
        proof {
            assert(delta@ == values[*tx]);
            assert(order.take(i + 1).drop_last() =~= order.take(i));
            assert(order.take(i + 1).last() == *tx);
        }
        match acc.checked_add(delta) {
            Some(sum) => {
                acc = sum;
            },
            None => {
                proof {
                    lemma_held_total_prefix(values, order, i + 1);
                }
                return None;
            },
        }
    }
    assert(order.take(order.len() as int) =~= order);
    Some(acc)
}

impl Account {
    /// Holds of every account that exists.
    #[verifier::type_invariant]
    pub closed spec fn inv(self) -> bool {
        self@.wf()
    }

    pub fn new(id: u32) -> (account: Account)
        ensures
            account@ == AccountView::opened(id),
            account@.wf(),
    {
        let amount = Currency::Bitcoin.zero();
        let held = Amount::zero();
        let ledger: BTreeMap<u32, Amount> = BTreeMap::new();
        let in_dispute: BTreeSet<u32> = BTreeSet::new();
        let charged_back: BTreeSet<u32> = BTreeSet::new();
        proof {
            assert(ledger_view(ledger@) =~= Map::<u32, Dec>::empty());
            lemma_ordering_exists(Set::<u32>::empty());
        }
        Account { id, amount, held, ledger, in_dispute, charged_back, locked: false }
    }

    pub fn id(&self) -> (id: u32)
        ensures
            id == self@.id,
    {
        self.id
    }

    /// What is available.
    pub fn amount(&self) -> (m: Money)
        ensures
            m.amount@ == self@.available,
            m.currency == self@.currency,
    {
        self.amount
    }

    /// What is held by disputes.
    pub fn held(&self) -> (h: Amount)
        ensures
            h@ == self@.held,
    {
        self.held
    }

    pub fn is_locked(&self) -> (locked: bool)
        ensures
            locked == self@.locked,
    {
        self.locked
    }

    /// Where the transaction stands.
    pub fn state_of(&self, transaction_id: u32) -> (state: TxState)
        ensures
            state == self@.state_of(transaction_id),
    {
        if !self.ledger.contains_key(&transaction_id) {
            TxState::Unknown
        } else if self.charged_back.contains(&transaction_id) {
            TxState::ChargedBack
        } else if self.in_dispute.contains(&transaction_id) {
            TxState::Disputed
        } else {
            TxState::Applied
        }
    }

    /// What the transaction moved, if it is recorded.
    pub fn recorded(&self, transaction_id: u32) -> (r: Option<Amount>)
        ensures
            r is Some <==> self@.ledger.contains_key(transaction_id),
            r matches Some(a) ==> a@ == self@.ledger[transaction_id],
    {
        match self.ledger.get(&transaction_id) {
            Some(a) => Some(*a),
            None => None,
        }
    }

    pub fn deposit(&mut self, transaction_id: u32, amount: Money) -> (r: AccountDomainResult<()>)
        ensures
            final(self)@.wf(),
            carries_out(
                r,
                old(self)@,
                final(self)@,
                old(self)@.deposit(transaction_id, amount),
                transaction_id,
            ),
    {
        proof {
            use_type_invariant(&*self);
            use_type_invariant(&amount.amount);
        }
        match self.amount.checked_add(amount) {
            Ok(balance) => {
                if self.record(transaction_id, amount.amount, balance) {
                    let mut events = Vec::new();
                    self.raise_account_updated(&mut events, transaction_id);
                    DomainResult::Done { data: (), events }
                } else {
                    DomainResult::Failed(AccountErrors::MoneyErrors(MoneyErrors::Overflow))
                }
            },
            Err(err) => DomainResult::Failed(AccountErrors::MoneyErrors(err)),
        }
    }

    pub fn withdraw(&mut self, transaction_id: u32, amount: Money) -> (r: AccountDomainResult<()>)
        ensures
            final(self)@.wf(),
            carries_out(
                r,
                old(self)@,
                final(self)@,
                old(self)@.withdraw(transaction_id, amount),
                transaction_id,
            ),
            r is Done ==> final(self)@.available.mantissa >= 0,
    {
        proof {
            use_type_invariant(&*self);
            use_type_invariant(&amount.amount);
        }
        match self.amount.checked_sub(amount) {
            Ok(balance) => {
                if balance.is_negative() {
                    DomainResult::Failed(AccountErrors::NegativeAmount)
                } else if self.record(transaction_id, amount.amount.negated(), balance) {
                    let mut events = Vec::new();
                    self.raise_account_updated(&mut events, transaction_id);
                    DomainResult::Done { data: (), events }
                } else {
                    DomainResult::Failed(AccountErrors::MoneyErrors(MoneyErrors::Overflow))
                }
            },
            Err(err) => DomainResult::Failed(AccountErrors::MoneyErrors(err)),
        }
    }

    pub fn dispute(&mut self, transaction_id: u32) -> (r: AccountDomainResult<()>)
        ensures
            final(self)@.wf(),
            carries_out(
                r,
                old(self)@,
                final(self)@,
                old(self)@.dispute(transaction_id),
                transaction_id,
            ),
    {
        proof {
            use_type_invariant(&*self);
        }
        match self.state_of(transaction_id) {
            TxState::Applied => {},
            _ => {
                return DomainResult::Failed(AccountErrors::TransactionNotFound);
            },
        }
        let delta = match self.ledger.get(&transaction_id) {
            Some(d) => *d,
            None => Amount::zero(),
        };
        match self.amount.checked_sub(delta * self.amount.currency) {
            Ok(balance) => {
                if self.set_aside(transaction_id, balance) {
                    let mut events = Vec::new();
                    self.raise_account_updated(&mut events, transaction_id);
                    DomainResult::Done { data: (), events }
                } else {
                    DomainResult::Failed(AccountErrors::MoneyErrors(MoneyErrors::Overflow))
                }
            },
            Err(err) => DomainResult::Failed(AccountErrors::MoneyErrors(err)),
        }
    }

    pub fn resolve(&mut self, transaction_id: u32) -> (r: AccountDomainResult<()>)
        ensures
            final(self)@.wf(),
            carries_out(
                r,
                old(self)@,
                final(self)@,
                old(self)@.resolve(transaction_id),
                transaction_id,
            ),
    {
        proof {
            use_type_invariant(&*self);
        }
        match self.state_of(transaction_id) {
            TxState::Disputed => {},
            _ => {
                return DomainResult::Failed(AccountErrors::TransactionNotFound);
            },
        }
        let delta = match self.ledger.get(&transaction_id) {
            Some(d) => *d,
            None => Amount::zero(),
        };
        match self.amount.checked_add(delta * self.amount.currency) {
            Ok(balance) => {
                if self.release(transaction_id, balance, false) {
                    let mut events = Vec::new();
                    self.raise_account_updated(&mut events, transaction_id);
                    DomainResult::Done { data: (), events }
                } else {
                    DomainResult::Failed(AccountErrors::MoneyErrors(MoneyErrors::Overflow))
                }
            },
            Err(err) => DomainResult::Failed(AccountErrors::MoneyErrors(err)),
        }
    }

    pub fn chargeback(&mut self, transaction_id: u32) -> (r: AccountDomainResult<()>)
        ensures
            final(self)@.wf(),
            carries_out(
                r,
                old(self)@,
                final(self)@,
                old(self)@.chargeback(transaction_id),
                transaction_id,
            ),
            r is Done ==> final(self)@.locked,
    {
        proof {
            use_type_invariant(&*self);
        }
        match self.state_of(transaction_id) {
            TxState::Disputed => {},
            _ => {
                return DomainResult::Failed(AccountErrors::TransactionNotFound);
            },
        }
        let balance = self.amount;
        if self.release(transaction_id, balance, true) {
            let mut events = Vec::new();
            self.raise_account_updated(&mut events, transaction_id);
            DomainResult::Done { data: (), events }
        } else {
            DomainResult::Failed(AccountErrors::MoneyErrors(MoneyErrors::Overflow))
        }
    }

    /// Puts an applied transaction under dispute and sets the balance that
    /// this leaves, unless the held total overflows: then nothing changes.
    fn set_aside(&mut self, transaction_id: u32, balance: Money) -> (done: bool)
        requires
            old(self)@.state_of(transaction_id) == TxState::Applied,
            balance.currency == old(self)@.currency,
        ensures
            final(self)@.wf(),
            match held_total(
                old(self)@.ledger,
                ordered(old(self)@.disputed.insert(transaction_id)),
            ) {
                Some(held) => done && final(self)@ == (AccountView {
                    available: balance.amount@,
                    held,
                    disputed: old(self)@.disputed.insert(transaction_id),
                    ..old(self)@
                }),
                None => !done && final(self)@ == old(self)@,
            },
    {
        proof {
            use_type_invariant(&*self);
            use_type_invariant(&balance.amount);
        }
        let mut this = Account::new(self.id);
        core::mem::swap(self, &mut this);
        let Account { id, amount, held, ledger, in_dispute, charged_back, locked } = this;
        let mut in_dispute = in_dispute;
        let ghost before = in_dispute@;
        in_dispute.insert(transaction_id);
        match total_held(&ledger, &in_dispute) {
            Some(total) => {
                proof {
                    use_type_invariant(&total);
                    lemma_set_walk(&in_dispute);
                }
                *self = Account {
                    id,
                    amount: balance,
                    held: total,
                    ledger,
                    in_dispute,
                    charged_back,
                    locked,
                };
                proof {
                    use_type_invariant(&*self);
                }
                true
            },
            None => {
                in_dispute.remove(&transaction_id);
                assert(in_dispute@ =~= before);
                *self = Account { id, amount, held, ledger, in_dispute, charged_back, locked };
                proof {
                    use_type_invariant(&*self);
                }
                false
            },
        }
    }

    /// Ends the dispute of a transaction and sets the balance that this
    /// leaves, unless the held total overflows: then nothing changes. A
    /// charge-back also marks the transaction and locks the account.
    fn release(&mut self, transaction_id: u32, balance: Money, charge_back: bool) -> (done: bool)
        requires
            old(self)@.state_of(transaction_id) == TxState::Disputed,
            balance.currency == old(self)@.currency,
        ensures
            final(self)@.wf(),
            match held_total(
                old(self)@.ledger,
                ordered(old(self)@.disputed.remove(transaction_id)),
            ) {
                Some(held) => done && final(self)@ == (AccountView {
                    available: balance.amount@,
                    held,
                    disputed: old(self)@.disputed.remove(transaction_id),
                    charged_back: if charge_back {
                        old(self)@.charged_back.insert(transaction_id)
                    } else {
                        old(self)@.charged_back
                    },
                    locked: charge_back || old(self)@.locked,
                    ..old(self)@
                }),
                None => !done && final(self)@ == old(self)@,
            },
    {
        proof {
            use_type_invariant(&*self);
            use_type_invariant(&balance.amount);
        }
        let mut this = Account::new(self.id);
        core::mem::swap(self, &mut this);
        let Account { id, amount, held, ledger, in_dispute, charged_back, locked } = this;
        let mut in_dispute = in_dispute;
        let mut charged_back = charged_back;
        let ghost before = in_dispute@;
        in_dispute.remove(&transaction_id);
        match total_held(&ledger, &in_dispute) {
            Some(total) => {
                proof {
                    use_type_invariant(&total);
                    lemma_set_walk(&in_dispute);
                }
                if charge_back {
                    charged_back.insert(transaction_id);
                }
                *self = Account {
                    id,
                    amount: balance,
                    held: total,
                    ledger,
                    in_dispute,
                    charged_back,
                    locked: charge_back || locked,
                };
                proof {
                    use_type_invariant(&*self);
                }
                true
            },
            None => {
                in_dispute.insert(transaction_id);
                assert(in_dispute@ =~= before);
                *self = Account { id, amount, held, ledger, in_dispute, charged_back, locked };
                proof {
                    use_type_invariant(&*self);
                }
                false
            },
        }
    }

    /// Records what a transaction moved and sets the balance it left, unless
    /// the held total overflows: then nothing changes.
    fn record(&mut self, transaction_id: u32, delta: Amount, balance: Money) -> (done: bool)
        requires
            balance.currency == old(self)@.currency,
        ensures
            final(self)@.wf(),
            match old(self)@.held_with(transaction_id, delta@) {
                Some(held) => done && final(self)@ == (AccountView {
                    available: balance.amount@,
                    held,
                    ledger: old(self)@.ledger.insert(transaction_id, delta@),
                    ..old(self)@
                }),
                None => !done && final(self)@ == old(self)@,
            },
    {
        proof {
            use_type_invariant(&*self);
            use_type_invariant(&delta);
            use_type_invariant(&balance.amount);
        }
        let mut this = Account::new(self.id);
        core::mem::swap(self, &mut this);
        let Account { id, amount, held, ledger, in_dispute, charged_back, locked } = this;
        let mut ledger = ledger;
        let ghost before = ledger_view(ledger@);
        let previous = ledger.insert(transaction_id, delta);
        let ghost after = ledger_view(ledger@);
        assert(after =~= before.insert(transaction_id, delta@));
        let held = if in_dispute.contains(&transaction_id) {
            match total_held(&ledger, &in_dispute) {
                Some(total) => {
                    proof {
                        use_type_invariant(&total);
                    }
                    total
                },
                None => {
                    match previous {
                        Some(entry) => {
                            ledger.insert(transaction_id, entry);
                        },
                        None => {},
                    }
                    assert(ledger_view(ledger@) =~= before);
                    *self = Account { id, amount, held, ledger, in_dispute, charged_back, locked };
                    proof {
                        use_type_invariant(&*self);
                    }
                    return false;
                },
            }
        } else {
            proof {
                lemma_ordering_exists(in_dispute@);
                let order = ordered(in_dispute@);
                assert forall|i: int| 0 <= i < order.len() implies before[#[trigger] order[i]]
                    == after[order[i]] by {
                    assert(order.to_set().contains(order[i]));
                }
                lemma_held_total_frame(before, after, order);
            }
            held
        };
        *self = Account { id, amount: balance, held, ledger, in_dispute, charged_back, locked };
        proof {
            use_type_invariant(&*self);
        }
        true
    }

    /// Tells the account's state as transaction `transaction_id` left it.
    fn raise_account_updated(&self, events: &mut Vec<AllEvents>, transaction_id: u32)
        ensures
            final(events)@.len() == old(events)@.len() + 1,
            final(events)@ == old(events)@.push(final(events)@.last()),
            final(events)@.last()@ == self@.updated(transaction_id),
    {
        events.push(
            AllEvents::AccountUpdated {
                account_id: self.id,
                transaction_id,
                amount: self.amount.into(),
                held: self.held,
                locked: self.locked,
            },
        );
    }
}

} // verus!
