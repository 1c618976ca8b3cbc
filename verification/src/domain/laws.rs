//! What holds of an account whatever is done to it.
//!
//! Decimal addition rounds once a sum no longer fits at the scale of its
//! operands. The laws that equate balances therefore speak of histories in
//! which every sum and difference is plain, that is, known to be exact.

use crate::domain::account::held_total;
use crate::domain::account::AccountErrors;
use crate::domain::account::AccountView;
use crate::domain::account::TxState;
use crate::domain::amount::checked_difference;
use crate::domain::amount::checked_sum;
use crate::domain::amount::difference_is_plain;
use crate::domain::amount::lemma_plain_difference;
use crate::domain::amount::lemma_plain_sum;
use crate::domain::amount::sum_is_plain;
use crate::domain::amount::Dec;
use crate::domain::money::Money;
use crate::domain::money::MoneyErrors;
use crate::order::lemma_ordering_exists;
use crate::order::ordered;
use vstd::prelude::*;

verus! {

/// A deposit or a withdrawal.
pub enum Movement {
    Deposit { transaction_id: u32, amount: Money },
    Withdrawal { transaction_id: u32, amount: Money },
}

impl Movement {
    pub open spec fn transaction_id(self) -> u32 {
        match self {
            Movement::Deposit { transaction_id, .. } => transaction_id,
            Movement::Withdrawal { transaction_id, .. } => transaction_id,
        }
    }

    pub open spec fn amount(self) -> Dec {
        match self {
            Movement::Deposit { amount, .. } => amount.amount@,
            Movement::Withdrawal { amount, .. } => amount.amount@,
        }
    }

    /// What the movement adds to the balance, in units of 10^-28.
    pub open spec fn units(self) -> int {
        match self {
            Movement::Deposit { amount, .. } => amount.amount@.units(),
            Movement::Withdrawal { amount, .. } => -amount.amount@.units(),
        }
    }

    /// The account after the movement, or the reason why it is refused.
    pub open spec fn apply(self, s: AccountView) -> Result<AccountView, AccountErrors> {
        match self {
            Movement::Deposit { transaction_id, amount } => s.deposit(transaction_id, amount),
            Movement::Withdrawal { transaction_id, amount } => s.withdraw(transaction_id, amount),
        }
    }

    /// The movement's sum or difference is exact on the balance of `s`.
    pub open spec fn is_plain(self, s: AccountView) -> bool {
        match self {
            Movement::Deposit { amount, .. } => sum_is_plain(s.available, amount.amount@),
            Movement::Withdrawal { amount, .. } => difference_is_plain(
                s.available,
                amount.amount@,
            ),
        }
    }
}

/// The account after all the movements, in their order, if each of them
/// succeeds.
pub open spec fn apply_all(s: AccountView, movements: Seq<Movement>) -> Option<AccountView>
    decreases movements.len(),
{
    if movements.len() == 0 {
        Some(s)
    } else {
        match apply_all(s, movements.drop_last()) {
            Some(t) => match movements.last().apply(t) {
                Ok(u) => Some(u),
                Err(_) => None,
            },
            None => None,
        }
    }
}

/// Every movement of a successful history is plain on the balance it meets.
pub open spec fn all_plain(s: AccountView, movements: Seq<Movement>) -> bool
    decreases movements.len(),
{
    movements.len() == 0 || {
        &&& all_plain(s, movements.drop_last())
        &&& apply_all(s, movements.drop_last()) matches Some(t) && movements.last().is_plain(t)
    }
}

/// Deposits less withdrawals, in units of 10^-28.
pub open spec fn net_units(movements: Seq<Movement>) -> int
    decreases movements.len(),
{
    if movements.len() == 0 {
        0
    } else {
        net_units(movements.drop_last()) + movements.last().units()
    }
}

/// After deposits and withdrawals that all succeeded, what is available is
/// what was available before, plus the deposits, less the withdrawals.
pub proof fn law_available_is_net_of_movements(
    s: AccountView,
    movements: Seq<Movement>,
    t: AccountView,
)
    requires
        s.available.wf(),
        forall|i: int| 0 <= i < movements.len() ==> (#[trigger] movements[i]).amount().wf(),
        apply_all(s, movements) == Some(t),
        all_plain(s, movements),
    ensures
        t.available.wf(),
        t.available.units() == s.available.units() + net_units(movements),
        t.disputed == s.disputed,
    decreases movements.len(),
{
    if movements.len() > 0 {
        let front = movements.drop_last();
        let last = movements.last();
        let mid = apply_all(s, front)->Some_0;
        assert forall|i: int| 0 <= i < front.len() implies (#[trigger] front[i]).amount().wf() by {
            assert(front[i] == movements[i]);
        }
        law_available_is_net_of_movements(s, front, mid);
        assert(last == movements[movements.len() - 1]);
        match last {
            Movement::Deposit { amount, .. } => {
                lemma_plain_sum(mid.available, amount.amount@);
            },
            Movement::Withdrawal { amount, .. } => {
                lemma_plain_difference(mid.available, amount.amount@);
            },
        }
    }
}

/// A withdrawal that succeeds leaves nothing below zero available.
pub proof fn law_withdraw_leaves_no_debt(s: AccountView, tx: u32, amount: Money, t: AccountView)
    requires
        s.withdraw(tx, amount) == Ok::<AccountView, AccountErrors>(t),
        t.available.wf(),
    ensures
        t.available.mantissa >= 0,
        t.available.units() >= 0,
{
    crate::domain::amount::lemma_units_sign(t.available);
}

/// The sum of the ledger's amounts for the transactions of `order`, in units
/// of 10^-28.
pub open spec fn sum_units(ledger: Map<u32, Dec>, order: Seq<u32>) -> int
    decreases order.len(),
{
    if order.len() == 0 {
        0
    } else {
        sum_units(ledger, order.drop_last()) + ledger[order.last()].units()
    }
}

/// Every sum of the held total is plain.
pub open spec fn total_is_plain(ledger: Map<u32, Dec>, order: Seq<u32>) -> bool
    decreases order.len(),
{
    order.len() == 0 || {
        &&& total_is_plain(ledger, order.drop_last())
        &&& held_total(ledger, order.drop_last()) matches Some(acc) && sum_is_plain(
            acc,
            ledger[order.last()],
        )
    }
}

/// Where every sum is plain, the held total is the sum of the amounts.
pub proof fn lemma_held_total_units(ledger: Map<u32, Dec>, order: Seq<u32>)
    requires
        forall|i: int| 0 <= i < order.len() ==> ledger[#[trigger] order[i]].wf(),
        total_is_plain(ledger, order),
    ensures
        held_total(ledger, order) matches Some(total) && total.wf() && total.units() == sum_units(
            ledger,
            order,
        ),
    decreases order.len(),
{
    if order.len() > 0 {
        let front = order.drop_last();
        assert forall|i: int| 0 <= i < front.len() implies ledger[#[trigger] front[i]].wf() by {
            assert(front[i] == order[i]);
        }
        lemma_held_total_units(ledger, front);
        assert(order.last() == order[order.len() - 1]);
        lemma_plain_sum(held_total(ledger, front)->Some_0, ledger[order.last()]);
    } else {
        assert(0 * vstd::arithmetic::power::pow(10, 28) == 0);
    }
}

/// What an account holds is the sum of what its disputed transactions
/// moved.
pub proof fn law_held_is_sum_of_disputed(s: AccountView)
    requires
        s.wf(),
        total_is_plain(s.ledger, ordered(s.disputed)),
    ensures
        s.held.units() == sum_units(s.ledger, ordered(s.disputed)),
{
    lemma_ordering_exists(s.disputed);
    let order = ordered(s.disputed);
    assert forall|i: int| 0 <= i < order.len() implies s.ledger[#[trigger] order[i]].wf() by {
        assert(order.to_set().contains(order[i]));
    }
    lemma_held_total_units(s.ledger, order);
}

/// A deposit that is disputed and then resolved leaves the account as the
/// deposit alone left it: the same ledger, the same disputes, the same held
/// total, and the same value available.
pub proof fn law_dispute_then_resolve_restores(
    s: AccountView,
    tx: u32,
    amount: Money,
    deposited: AccountView,
    disputed: AccountView,
    resolved: AccountView,
)
    requires
        s.wf(),
        amount.amount@.wf(),
        s.deposit(tx, amount) == Ok::<AccountView, AccountErrors>(deposited),
        deposited.dispute(tx) == Ok::<AccountView, AccountErrors>(disputed),
        disputed.resolve(tx) == Ok::<AccountView, AccountErrors>(resolved),
        sum_is_plain(s.available, amount.amount@),
        difference_is_plain(deposited.available, amount.amount@),
        sum_is_plain(disputed.available, amount.amount@),
    ensures
        resolved.available.units() == deposited.available.units(),
        resolved.held == deposited.held,
        resolved.disputed == deposited.disputed,
        resolved.ledger == deposited.ledger,
        resolved.charged_back == deposited.charged_back,
        resolved.locked == deposited.locked,
        resolved.id == deposited.id,
        resolved.currency == deposited.currency,
{
    let x = amount.amount@;
    lemma_plain_sum(s.available, x);
    lemma_plain_difference(deposited.available, x);
    lemma_plain_sum(disputed.available, x);
    assert(deposited.ledger[tx] == x);
    assert(!s.disputed.contains(tx));
    assert(s.disputed.insert(tx).remove(tx) =~= s.disputed);
    lemma_ordering_exists(s.disputed);
    let order = ordered(s.disputed);
    assert forall|i: int| 0 <= i < order.len() implies s.ledger[#[trigger] order[i]]
        == deposited.ledger[order[i]] by {
        assert(order.to_set().contains(order[i]));
    }
    crate::domain::account::lemma_held_total_frame(
        s.ledger,
        deposited.ledger,
        ordered(s.disputed),
    );
}

/// The same deposit applied twice adds its amount twice, under two
/// transaction ids or under one.
pub proof fn law_two_deposits_add_twice(
    s: AccountView,
    first: u32,
    second: u32,
    amount: Money,
    once: AccountView,
    twice: AccountView,
)
    requires
        s.available.wf(),
        amount.amount@.wf(),
        s.deposit(first, amount) == Ok::<AccountView, AccountErrors>(once),
        once.deposit(second, amount) == Ok::<AccountView, AccountErrors>(twice),
        sum_is_plain(s.available, amount.amount@),
        sum_is_plain(once.available, amount.amount@),
    ensures
        twice.available.units() == s.available.units() + 2 * amount.amount@.units(),
{
    lemma_plain_sum(s.available, amount.amount@);
    lemma_plain_sum(once.available, amount.amount@);
}

/// A deposit in the account's currency whose sum exists succeeds, whether
/// or not its transaction id is recorded already: it adds to what is
/// available, puts its amount in the ledger under its id, and leaves the
/// disputes alone. Unless the id is under dispute, what is held stays too.
pub proof fn law_deposit_is_applied(s: AccountView, tx: u32, amount: Money, available: Dec)
    requires
        amount.currency == s.currency,
        checked_sum(s.available, amount.amount@) == Some(available),
        !s.disputed.contains(tx),
    ensures
        s.deposit(tx, amount) == Ok::<AccountView, AccountErrors>(
            AccountView { available, ledger: s.ledger.insert(tx, amount.amount@), ..s },
        ),
{
}

/// A withdrawal in the account's currency that the balance covers succeeds,
/// whether or not its transaction id is recorded already: it takes from what
/// is available, puts the negated amount in the ledger under its id, and
/// leaves the disputes alone. Unless the id is under dispute, what is held
/// stays too.
pub proof fn law_withdrawal_is_applied(s: AccountView, tx: u32, amount: Money, available: Dec)
    requires
        amount.currency == s.currency,
        checked_difference(s.available, amount.amount@) == Some(available),
        available.mantissa >= 0,
        !s.disputed.contains(tx),
    ensures
        s.withdraw(tx, amount) == Ok::<AccountView, AccountErrors>(
            AccountView { available, ledger: s.ledger.insert(tx, amount.amount@.negated()), ..s },
        ),
{
}

/// A movement fails for the reason that its arithmetic gives, whatever its
/// transaction id: money of another currency is mismatched, a sum that does
/// not exist overflows, a difference that does not exist underflows, and a
/// difference below zero is a negative amount.
pub proof fn law_movement_failures(s: AccountView, tx: u32, amount: Money)
    ensures
        amount.currency != s.currency ==> s.deposit(tx, amount) == Err::<
            AccountView,
            AccountErrors,
        >(AccountErrors::MoneyErrors(MoneyErrors::MismatchedCurrencies)) && s.withdraw(tx, amount)
            == Err::<AccountView, AccountErrors>(
            AccountErrors::MoneyErrors(MoneyErrors::MismatchedCurrencies),
        ),
        amount.currency == s.currency && checked_sum(s.available, amount.amount@) is None
            ==> s.deposit(tx, amount) == Err::<AccountView, AccountErrors>(
            AccountErrors::MoneyErrors(MoneyErrors::Overflow),
        ),
        amount.currency == s.currency && checked_difference(s.available, amount.amount@) is None
            ==> s.withdraw(tx, amount) == Err::<AccountView, AccountErrors>(
            AccountErrors::MoneyErrors(MoneyErrors::Underflow),
        ),
        amount.currency == s.currency && (checked_difference(
            s.available,
            amount.amount@,
        ) matches Some(d) && d.mantissa < 0) ==> s.withdraw(tx, amount) == Err::<
            AccountView,
            AccountErrors,
        >(AccountErrors::NegativeAmount),
{
}

/// Withdrawing exactly what is available succeeds and leaves zero.
pub proof fn law_withdraw_all_leaves_zero(s: AccountView, tx: u32, amount: Money)
    requires
        s.available.wf(),
        !s.disputed.contains(tx),
        amount.currency == s.currency,
        amount.amount@ == s.available,
        s.available.mantissa >= 0,
    ensures
        s.withdraw(tx, amount) matches Ok(t) && t.available.mantissa == 0,
{
    let a = s.available;
    assert(a.mantissa_at(a.scale) == a.mantissa_at(a.scale));
    lemma_plain_difference(a, a);
}

/// A dispute finds a transaction only where it was applied and is neither
/// disputed nor charged back.
pub proof fn law_dispute_needs_applied(s: AccountView, tx: u32)
    ensures
        s.state_of(tx) != TxState::Applied ==> s.dispute(tx) == Err::<AccountView, AccountErrors>(
            AccountErrors::TransactionNotFound,
        ),
        s.state_of(tx) != TxState::Disputed ==> s.resolve(tx) == Err::<AccountView, AccountErrors>(
            AccountErrors::TransactionNotFound,
        ) && s.chargeback(tx) == Err::<AccountView, AccountErrors>(
            AccountErrors::TransactionNotFound,
        ),
{
}

/// The transactions that count towards what is available: the recorded ones
/// that are neither disputed nor charged back.
pub open spec fn free(s: AccountView) -> Set<u32> {
    Set::new(
        |tx: u32|
            s.ledger.contains_key(tx) && !s.disputed.contains(tx) && !s.charged_back.contains(tx),
    )
}

/// What is available is the sum of what the free transactions moved.
pub open spec fn settled(s: AccountView) -> bool {
    s.available.units() == sum_units(s.ledger, ordered(free(s)))
}

/// The sum depends on the ledger only at the transactions it adds up.
pub proof fn lemma_sum_units_frame(l1: Map<u32, Dec>, l2: Map<u32, Dec>, order: Seq<u32>)
    requires
        forall|i: int| 0 <= i < order.len() ==> l1[#[trigger] order[i]] == l2[order[i]],
    ensures
        sum_units(l1, order) == sum_units(l2, order),
    decreases order.len(),
{
    if order.len() > 0 {
        let front = order.drop_last();
        assert forall|i: int| 0 <= i < front.len() implies l1[#[trigger] front[i]] == l2[front[i]] by {
            assert(front[i] == order[i]);
        }
        lemma_sum_units_frame(l1, l2, front);
        assert(order.last() == order[order.len() - 1]);
    }
}

/// One more transaction in the list adds its amount to the sum, wherever
/// it stands.
pub proof fn lemma_sum_units_insert_at(ledger: Map<u32, Dec>, order: Seq<u32>, i: int, tx: u32)
    requires
        0 <= i <= order.len(),
    ensures
        sum_units(ledger, order.insert(i, tx)) == sum_units(ledger, order) + ledger[tx].units(),
    decreases order.len() - i,
{
    let longer = order.insert(i, tx);
    if i == order.len() {
        assert(longer.drop_last() =~= order);
        assert(longer.last() == tx);
    } else {
        assert(longer.drop_last() =~= order.drop_last().insert(i, tx));
        assert(longer.last() == order.last());
        lemma_sum_units_insert_at(ledger, order.drop_last(), i, tx);
    }
}

/// One more transaction in the set adds its amount to the sum.
pub proof fn lemma_sum_units_with(ledger: Map<u32, Dec>, set: Set<u32>, tx: u32)
    requires
        set.finite(),
        !set.contains(tx),
    ensures
        sum_units(ledger, ordered(set.insert(tx))) == sum_units(ledger, ordered(set))
            + ledger[tx].units(),
{
    lemma_ordering_exists(set);
    lemma_ordering_exists(set.insert(tx));
    let order = ordered(set);
    let i = crate::order::lemma_place_exists(order, tx);
    assert forall|j: int| i <= j < order.len() implies tx < order[j] by {
        assert(order.to_set().contains(order[j]));
    }
    crate::order::lemma_insert_ascending(order, i, tx);
    crate::order::lemma_ordering_unique(ordered(set.insert(tx)), order.insert(i, tx));
    lemma_sum_units_insert_at(ledger, order, i, tx);
}

/// One transaction less in the set takes its amount from the sum.
pub proof fn lemma_sum_units_without(ledger: Map<u32, Dec>, set: Set<u32>, tx: u32)
    requires
        set.finite(),
        set.contains(tx),
    ensures
        sum_units(ledger, ordered(set)) == sum_units(ledger, ordered(set.remove(tx)))
            + ledger[tx].units(),
{
    lemma_sum_units_with(ledger, set.remove(tx), tx);
    assert(set.remove(tx).insert(tx) =~= set);
}

/// The free transactions of a well-formed account are finitely many.
pub proof fn lemma_free_is_finite(s: AccountView)
    requires
        s.wf(),
    ensures
        free(s).finite(),
{
    assert(free(s).subset_of(s.ledger.dom()));
    vstd::set_lib::lemma_set_subset_finite(s.ledger.dom(), free(s));
}

/// A new account is settled.
pub proof fn law_opened_is_settled(id: u32)
    ensures
        settled(AccountView::opened(id)),
{
    let s = AccountView::opened(id);
    assert(free(s) =~= Set::<u32>::empty());
    lemma_ordering_exists(Set::<u32>::empty());
    assert(0 * vstd::arithmetic::power::pow(10, 28) == 0);
}

/// A deposit or withdrawal under a new transaction id keeps an account
/// settled.
pub proof fn law_movement_keeps_settled(s: AccountView, movement: Movement, t: AccountView)
    requires
        s.wf(),
        !s.ledger.contains_key(movement.transaction_id()),
        movement.amount().wf(),
        movement.apply(s) == Ok::<AccountView, AccountErrors>(t),
        movement.is_plain(s),
        settled(s),
    ensures
        settled(t),
{
    let tx = movement.transaction_id();
    let x = movement.amount();
    lemma_free_is_finite(s);
    assert(free(t) =~= free(s).insert(tx));
    lemma_sum_units_with(t.ledger, free(s), tx);
    lemma_ordering_exists(free(s));
    let order = ordered(free(s));
    assert forall|i: int| 0 <= i < order.len() implies s.ledger[#[trigger] order[i]]
        == t.ledger[order[i]] by {
        assert(order.to_set().contains(order[i]));
    }
    lemma_sum_units_frame(s.ledger, t.ledger, order);
    match movement {
        Movement::Deposit { .. } => {
            lemma_plain_sum(s.available, x);
        },
        Movement::Withdrawal { .. } => {
            lemma_plain_difference(s.available, x);
            assert(x.negated().units() == -x.units()) by (nonlinear_arith)
                requires
                    x.negated().mantissa == -x.mantissa,
                    x.negated().scale == x.scale,
                    x.negated().units() == x.negated().mantissa * vstd::arithmetic::power::pow(
                        10,
                        (28 - x.negated().scale) as nat,
                    ),
                    x.units() == x.mantissa * vstd::arithmetic::power::pow(
                        10,
                        (28 - x.scale) as nat,
                    ),
            ;
        },
    }
}

/// A dispute keeps an account settled: what it takes from the available
/// balance is what the transaction had added to it.
pub proof fn law_dispute_keeps_settled(s: AccountView, tx: u32, t: AccountView)
    requires
        s.wf(),
        s.dispute(tx) == Ok::<AccountView, AccountErrors>(t),
        difference_is_plain(s.available, s.ledger[tx]),
        settled(s),
    ensures
        settled(t),
{
    lemma_free_is_finite(s);
    assert(free(t) =~= free(s).remove(tx));
    lemma_sum_units_without(s.ledger, free(s), tx);
    lemma_plain_difference(s.available, s.ledger[tx]);
}

/// A resolution keeps an account settled: what it gives back to the
/// available balance is what the dispute had taken.
pub proof fn law_resolve_keeps_settled(s: AccountView, tx: u32, t: AccountView)
    requires
        s.wf(),
        s.resolve(tx) == Ok::<AccountView, AccountErrors>(t),
        sum_is_plain(s.available, s.ledger[tx]),
        settled(s),
    ensures
        settled(t),
{
    lemma_free_is_finite(s);
    assert(free(t) =~= free(s).insert(tx));
    lemma_sum_units_with(s.ledger, free(s), tx);
    lemma_plain_sum(s.available, s.ledger[tx]);
}

/// A charge-back keeps an account settled: the amount was not available
/// before and is not available after.
pub proof fn law_chargeback_keeps_settled(s: AccountView, tx: u32, t: AccountView)
    requires
        s.chargeback(tx) == Ok::<AccountView, AccountErrors>(t),
        settled(s),
    ensures
        settled(t),
{
    assert(free(t) =~= free(s));
}

/// The ledger's amounts of the disputed transactions of a well-formed
/// account are well formed.
proof fn lemma_disputed_amounts_wf(s: AccountView, disputed: Set<u32>)
    requires
        s.wf(),
        disputed.finite(),
        disputed.subset_of(s.ledger.dom()),
    ensures
        forall|i: int|
            0 <= i < ordered(disputed).len() ==> s.ledger[#[trigger] ordered(disputed)[i]].wf(),
{
    lemma_ordering_exists(disputed);
    let order = ordered(disputed);
    assert forall|i: int| 0 <= i < order.len() implies s.ledger[#[trigger] order[i]].wf() by {
        assert(order.to_set().contains(order[i]));
        assert(s.ledger.contains_key(order[i]));
    }
}

/// A dispute moves what the transaction had moved from available to held:
/// available goes down by it, held goes up by it, and their sum stays.
pub proof fn law_dispute_moves_to_held(s: AccountView, tx: u32, t: AccountView)
    requires
        s.wf(),
        s.dispute(tx) == Ok::<AccountView, AccountErrors>(t),
        difference_is_plain(s.available, s.ledger[tx]),
        total_is_plain(s.ledger, ordered(s.disputed)),
        total_is_plain(s.ledger, ordered(s.disputed.insert(tx))),
    ensures
        t.available.units() == s.available.units() - s.ledger[tx].units(),
        t.held.units() == s.held.units() + s.ledger[tx].units(),
        t.available.units() + t.held.units() == s.available.units() + s.held.units(),
        t.disputed == s.disputed.insert(tx),
        t.ledger == s.ledger,
{
    lemma_plain_difference(s.available, s.ledger[tx]);
    lemma_disputed_amounts_wf(s, s.disputed);
    lemma_disputed_amounts_wf(s, s.disputed.insert(tx));
    lemma_held_total_units(s.ledger, ordered(s.disputed));
    lemma_held_total_units(s.ledger, ordered(s.disputed.insert(tx)));
    lemma_sum_units_with(s.ledger, s.disputed, tx);
}

/// A resolution gives back what the dispute had taken: available goes up by
/// what the transaction had moved, held goes down by it, and their sum
/// stays.
pub proof fn law_resolve_moves_back(s: AccountView, tx: u32, t: AccountView)
    requires
        s.wf(),
        s.resolve(tx) == Ok::<AccountView, AccountErrors>(t),
        sum_is_plain(s.available, s.ledger[tx]),
        total_is_plain(s.ledger, ordered(s.disputed)),
        total_is_plain(s.ledger, ordered(s.disputed.remove(tx))),
    ensures
        t.available.units() == s.available.units() + s.ledger[tx].units(),
        t.held.units() == s.held.units() - s.ledger[tx].units(),
        t.available.units() + t.held.units() == s.available.units() + s.held.units(),
        t.disputed == s.disputed.remove(tx),
        t.ledger == s.ledger,
{
    lemma_plain_sum(s.available, s.ledger[tx]);
    lemma_disputed_amounts_wf(s, s.disputed);
    lemma_disputed_amounts_wf(s, s.disputed.remove(tx));
    lemma_held_total_units(s.ledger, ordered(s.disputed));
    lemma_held_total_units(s.ledger, ordered(s.disputed.remove(tx)));
    lemma_sum_units_without(s.ledger, s.disputed, tx);
}

/// A charge-back discards what was held for the transaction: held goes down
/// by what the transaction had moved, available stays, and the account is
/// locked.
pub proof fn law_chargeback_discards(s: AccountView, tx: u32, t: AccountView)
    requires
        s.wf(),
        s.chargeback(tx) == Ok::<AccountView, AccountErrors>(t),
        total_is_plain(s.ledger, ordered(s.disputed)),
        total_is_plain(s.ledger, ordered(s.disputed.remove(tx))),
    ensures
        t.available == s.available,
        t.held.units() == s.held.units() - s.ledger[tx].units(),
        t.disputed == s.disputed.remove(tx),
        t.charged_back == s.charged_back.insert(tx),
        t.ledger == s.ledger,
        t.locked,
{
    lemma_disputed_amounts_wf(s, s.disputed);
    lemma_disputed_amounts_wf(s, s.disputed.remove(tx));
    lemma_held_total_units(s.ledger, ordered(s.disputed));
    lemma_held_total_units(s.ledger, ordered(s.disputed.remove(tx)));
    lemma_sum_units_without(s.ledger, s.disputed, tx);
}

} // verus!
