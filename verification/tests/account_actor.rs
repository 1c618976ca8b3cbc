use accounts::actors::account::Accept;
use accounts::actors::account::AccountActor;
use accounts::actors::account::AccountRequests;
use accounts::actors::account::AccountResponses;
use accounts::actors::account::ChargebackRequest;
use accounts::actors::account::ChargebackResponse;
use accounts::actors::account::DepositRequest;
use accounts::actors::account::DepositResponse;
use accounts::actors::account::DisputeRequest;
use accounts::actors::account::DisputeResponse;
use accounts::actors::account::Effect;
use accounts::actors::account::ResolveRequest;
use accounts::actors::account::ResolveResponse;
use accounts::actors::account::WithdrawRequest;
use accounts::actors::account::WithdrawResponse;
use accounts::domain::account::Account;
use accounts::domain::account::AccountErrors;
use accounts::domain::amount::Amount;
use accounts::domain::events::AllEvents;
use accounts::domain::money::Currency::Bitcoin;

fn dec(mantissa: i128, scale: u32) -> Amount {
    Amount::new(mantissa, scale).unwrap()
}

fn deposit(account_id: u32, transaction_id: u32, amount: Amount) -> AccountRequests {
    AccountRequests::DepositRequest(DepositRequest {
        account_id,
        transaction_id,
        amount: amount * Bitcoin,
    })
}

fn withdraw(account_id: u32, transaction_id: u32, amount: Amount) -> AccountRequests {
    AccountRequests::WithdrawRequest(WithdrawRequest {
        account_id,
        transaction_id,
        amount: amount * Bitcoin,
    })
}

fn dispute(account_id: u32, transaction_id: u32) -> AccountRequests {
    AccountRequests::DisputeRequest(DisputeRequest { account_id, transaction_id })
}

fn resolve(account_id: u32, transaction_id: u32) -> AccountRequests {
    AccountRequests::ResolveRequest(ResolveRequest { account_id, transaction_id })
}

fn chargeback(account_id: u32, transaction_id: u32) -> AccountRequests {
    AccountRequests::ChargebackRequest(ChargebackRequest { account_id, transaction_id })
}

fn accept() -> AccountRequests {
    AccountRequests::AcceptRequestRequest(Accept)
}

/// The replies among the effects, each with the handle it goes to.
fn replies(effects: &[Effect<&'static str>]) -> Vec<(&'static str, AccountResponses)> {
    let mut out = vec![];
    for effect in effects {
        if let Effect::Reply(to, response) = effect {
            out.push((*to, *response));
        }
    }
    out
}

/// What the published events report, in their order.
fn published(effects: &[Effect<&'static str>]) -> Vec<(u32, u32, i128, u32, i128, bool)> {
    let mut out = vec![];
    for effect in effects {
        if let Effect::Publish(AllEvents::AccountUpdated {
            account_id,
            transaction_id,
            amount,
            held,
            locked,
        }) = effect
        {
            out.push((
                *account_id,
                *transaction_id,
                amount.mantissa(),
                amount.scale(),
                held.mantissa(),
                *locked,
            ));
        }
    }
    out
}

fn schedules(effects: &[Effect<&'static str>]) -> usize {
    effects.iter().filter(|e| matches!(e, Effect::ScheduleAccept)).count()
}

#[test]
pub fn err_incorrectly_waiting_on_out_of_order() {
    let account = Account::new(0);
    let mut account: AccountActor<&'static str> = AccountActor::new(account);

    // The withdrawal is sent and its answer awaited: the release window
    // passes before the deposit is sent.
    account.handle_request(withdraw(0, 1, dec(5, 1)), "withdraw");
    account.handle_request(accept(), "timer");
    let response = replies(&account.take_effects());
    assert!(matches!(
        response[0],
        ("withdraw", AccountResponses::WithdrawResponse(WithdrawResponse::Error(_)))
    ));

    account.handle_request(deposit(0, 0, dec(1, 0)), "deposit");
    account.handle_request(accept(), "timer");
    let response = replies(&account.take_effects());
    assert!(matches!(
        response[0],
        ("deposit", AccountResponses::DepositResponse(DepositResponse::Done))
    ));
}

#[test]
pub fn ok_correctly_sending_out_of_order() {
    let account = Account::new(0);
    let mut account: AccountActor<&'static str> = AccountActor::new(account);

    // Both are sent within the release window.
    account.handle_request(withdraw(0, 1, dec(5, 1)), "withdraw");
    account.handle_request(deposit(0, 0, dec(1, 0)), "deposit");
    assert_eq!(account.pending(), 2);
    assert_eq!(schedules(&account.take_effects()), 2);

    account.handle_request(accept(), "timer");
    account.handle_request(accept(), "timer");
    let effects = account.take_effects();
    assert_eq!(
        replies(&effects),
        vec![
            ("deposit", AccountResponses::DepositResponse(DepositResponse::Done)),
            ("withdraw", AccountResponses::WithdrawResponse(WithdrawResponse::Done)),
        ]
    );
    assert_eq!(
        published(&effects),
        vec![(0, 0, 1, 0, 0, false), (0, 1, 5, 1, 0, false)]
    );
    assert_eq!(account.pending(), 0);
    assert!(account.account().amount().as_decimal() == dec(5, 1));
}

#[test]
fn serialised_withdraw_fails_with_negative_amount() {
    let mut actor: AccountActor<&'static str> = AccountActor::new(Account::new(0));
    actor.handle_request(withdraw(0, 1, dec(5, 1)), "w");
    actor.handle_request(accept(), "timer");
    actor.handle_request(deposit(0, 0, dec(10, 1)), "d");
    actor.handle_request(accept(), "timer");
    let effects = actor.take_effects();
    assert_eq!(
        replies(&effects),
        vec![
            (
                "w",
                AccountResponses::WithdrawResponse(WithdrawResponse::Error(
                    AccountErrors::NegativeAmount
                ))
            ),
            ("d", AccountResponses::DepositResponse(DepositResponse::Done)),
        ]
    );
    assert_eq!(published(&effects), vec![(0, 0, 10, 1, 0, false)]);
}

#[test]
fn accept_on_an_empty_buffer_does_nothing() {
    let mut actor: AccountActor<&'static str> = AccountActor::new(Account::new(0));
    actor.handle_request(accept(), "timer");
    actor.accept_request();
    assert!(actor.take_effects().is_empty());
    assert_eq!(actor.pending(), 0);
}

#[test]
fn requests_are_released_in_ascending_transaction_order() {
    let mut actor: AccountActor<&'static str> = AccountActor::new(Account::new(0));
    actor.handle_request(deposit(0, 30, dec(3, 0)), "c");
    actor.handle_request(deposit(0, 10, dec(1, 0)), "a");
    actor.handle_request(deposit(0, 20, dec(2, 0)), "b");
    actor.take_effects();
    actor.accept_request();
    assert_eq!(published(&actor.take_effects()), vec![(0, 10, 1, 0, 0, false)]);
    actor.accept_request();
    assert_eq!(published(&actor.take_effects()), vec![(0, 20, 3, 0, 0, false)]);
    actor.accept_request();
    assert_eq!(published(&actor.take_effects()), vec![(0, 30, 6, 0, 0, false)]);
}

#[test]
fn a_later_request_under_the_same_id_replaces_the_earlier() {
    let mut actor: AccountActor<&'static str> = AccountActor::new(Account::new(0));
    actor.handle_request(deposit(0, 1, dec(5, 0)), "first");
    actor.handle_request(deposit(0, 1, dec(7, 0)), "second");
    assert_eq!(actor.pending(), 1);
    assert_eq!(schedules(&actor.take_effects()), 2);
    actor.accept_request();
    actor.accept_request();
    let effects = actor.take_effects();
    assert_eq!(
        replies(&effects),
        vec![("second", AccountResponses::DepositResponse(DepositResponse::Done))]
    );
    assert!(actor.account().amount() == 7);
}

#[test]
fn the_same_deposit_after_its_release_is_applied_again() {
    let mut actor: AccountActor<&'static str> = AccountActor::new(Account::new(0));
    actor.handle_request(deposit(0, 1, dec(5, 0)), "first");
    actor.accept_request();
    actor.handle_request(deposit(0, 1, dec(5, 0)), "second");
    actor.accept_request();
    assert_eq!(
        replies(&actor.take_effects()),
        vec![
            ("first", AccountResponses::DepositResponse(DepositResponse::Done)),
            ("second", AccountResponses::DepositResponse(DepositResponse::Done)),
        ]
    );
    assert!(actor.account().amount() == 10);
}

#[test]
fn deposit_dispute_resolve_emit_three_events() {
    let mut actor: AccountActor<&'static str> = AccountActor::new(Account::new(1));
    actor.handle_request(deposit(1, 10, dec(30, 1)), "deposit");
    actor.handle_request(dispute(1, 10), "dispute");
    actor.handle_request(resolve(1, 10), "resolve");
    actor.take_effects();
    actor.accept_request();
    let effects = actor.take_effects();
    assert_eq!(
        published(&effects),
        vec![(1, 10, 30, 1, 0, false), (1, 10, 0, 1, 30, false), (1, 10, 30, 1, 0, false)]
    );
    assert_eq!(
        replies(&effects),
        vec![
            ("deposit", AccountResponses::DepositResponse(DepositResponse::Done)),
            ("dispute", AccountResponses::DisputeResponse(DisputeResponse::Done)),
            ("resolve", AccountResponses::ResolveResponse(ResolveResponse::Done)),
        ]
    );
    // each event comes before the answer to the request that caused it
    assert!(matches!(effects[0], Effect::Publish(_)));
    assert!(matches!(effects[1], Effect::Reply("deposit", _)));
    assert!(matches!(effects[2], Effect::Publish(_)));
    assert!(matches!(effects[3], Effect::Reply("dispute", _)));
    assert_eq!(effects.len(), 6);
}

#[test]
fn deposit_dispute_chargeback_locks_the_account() {
    let mut actor: AccountActor<&'static str> = AccountActor::new(Account::new(2));
    actor.handle_request(deposit(2, 20, dec(50, 1)), "d1");
    actor.handle_request(deposit(2, 21, dec(20, 1)), "d2");
    actor.handle_request(dispute(2, 20), "dispute");
    actor.handle_request(chargeback(2, 20), "chargeback");
    actor.accept_request();
    actor.accept_request();
    let effects = actor.take_effects();
    assert_eq!(
        published(&effects),
        vec![
            (2, 20, 50, 1, 0, false),
            (2, 20, 0, 1, 50, false),
            (2, 20, 0, 1, 0, true),
            (2, 21, 20, 1, 0, true),
        ]
    );
    assert_eq!(
        replies(&effects)[2],
        ("chargeback", AccountResponses::ChargebackResponse(ChargebackResponse::Done))
    );
    assert!(actor.account().is_locked());
}

#[test]
fn a_dispute_waits_for_its_transaction() {
    let mut actor: AccountActor<&'static str> = AccountActor::new(Account::new(3));
    actor.handle_request(dispute(3, 30), "dispute");
    assert!(actor.take_effects().is_empty());
    actor.handle_request(deposit(3, 30, dec(40, 1)), "deposit");
    actor.accept_request();
    let effects = actor.take_effects();
    assert_eq!(
        replies(&effects),
        vec![
            ("deposit", AccountResponses::DepositResponse(DepositResponse::Done)),
            ("dispute", AccountResponses::DisputeResponse(DisputeResponse::Done)),
        ]
    );
    assert!(actor.account().amount().is_zero());
    assert!(actor.account().held() == dec(40, 1));
}

#[test]
fn a_dispute_of_a_failed_transaction_finds_nothing() {
    let mut actor: AccountActor<&'static str> = AccountActor::new(Account::new(3));
    actor.handle_request(withdraw(3, 1, dec(1, 0)), "withdraw");
    actor.handle_request(dispute(3, 1), "dispute");
    actor.accept_request();
    assert_eq!(
        replies(&actor.take_effects()),
        vec![
            (
                "withdraw",
                AccountResponses::WithdrawResponse(WithdrawResponse::Error(
                    AccountErrors::NegativeAmount
                ))
            ),
            (
                "dispute",
                AccountResponses::DisputeResponse(DisputeResponse::Error(
                    AccountErrors::TransactionNotFound
                ))
            ),
        ]
    );
}

#[test]
fn handlers_apply_at_once_and_queue_the_event() {
    let mut actor: AccountActor<&'static str> = AccountActor::new(Account::new(4));
    let request = DepositRequest { account_id: 4, transaction_id: 1, amount: 5 * Bitcoin };
    assert_eq!(actor.handle_deposit(1, request), DepositResponse::Done);
    let request = WithdrawRequest { account_id: 4, transaction_id: 2, amount: 6 * Bitcoin };
    assert_eq!(
        actor.handle_withdraw(2, request),
        WithdrawResponse::Error(AccountErrors::NegativeAmount)
    );
    let request = DisputeRequest { account_id: 4, transaction_id: 1 };
    assert_eq!(actor.handle_dispute(1, request), DisputeResponse::Done);
    let request = ResolveRequest { account_id: 4, transaction_id: 1 };
    assert_eq!(actor.handle_resolve(1, request), ResolveResponse::Done);
    let request = ChargebackRequest { account_id: 4, transaction_id: 1 };
    assert_eq!(
        actor.handle_chargeback(1, request),
        ChargebackResponse::Error(AccountErrors::TransactionNotFound)
    );
    let effects = actor.take_effects();
    assert_eq!(
        published(&effects),
        vec![(4, 1, 5, 0, 0, false), (4, 1, 0, 0, 5, false), (4, 1, 5, 0, 0, false)]
    );
    assert!(replies(&effects).is_empty());
}

#[test]
fn requests_tell_their_ids() {
    let request = deposit(8, 9, dec(1, 0));
    assert_eq!(request.get_account_id(), 8);
    assert_eq!(request.get_transaction_id(), 9);
    let request = chargeback(6, 7);
    assert_eq!(request.get_account_id(), 6);
    assert_eq!(request.get_transaction_id(), 7);
}
