use accounts::actors::account::AccountActor;
use accounts::actors::account::AccountRequests;
use accounts::actors::account::AccountResponses;
use accounts::actors::account::Effect;
use accounts::actors::account::WithdrawResponse;
use accounts::actors::aggregators::accounts_state_aggregator::AccountsStateAggregator;
use accounts::actors::aggregators::Aggregator;
use accounts::domain::account::Account;
use accounts::domain::account::AccountErrors;
use accounts::domain::amount::Amount;
use accounts::records::to_request;

/// One account's actor and an aggregator behind it, run by hand: every
/// published event goes to the aggregator, every answer is kept.
struct Bench {
    actor: AccountActor<u32>,
    aggregator: AccountsStateAggregator,
    answers: Vec<(u32, AccountResponses)>,
    events: usize,
    scheduled: usize,
    sent: u32,
}

impl Bench {
    fn new(client: u32) -> Self {
        Bench {
            actor: AccountActor::new(Account::new(client)),
            aggregator: AccountsStateAggregator::default(),
            answers: vec![],
            events: 0,
            scheduled: 0,
            sent: 0,
        }
    }

    fn perform(&mut self) {
        for effect in self.actor.take_effects() {
            match effect {
                Effect::Publish(event) => {
                    self.events += 1;
                    self.aggregator.handle(event);
                }
                Effect::Reply(to, response) => self.answers.push((to, response)),
                Effect::ScheduleAccept => self.scheduled += 1,
            }
        }
    }

    /// Sends a record; the reply handle is the number of the record.
    fn send(&mut self, kind: &str, client: u32, tx: u32, amount: Option<(i128, u32)>) {
        let amount = amount.map(|(m, s)| Amount::new(m, s).unwrap());
        let request = to_request(kind, client, tx, amount).unwrap();
        self.actor.handle_request(request, self.sent);
        self.sent += 1;
        self.perform();
    }

    /// Lets the release window pass for everything that is scheduled.
    fn wait(&mut self) {
        while self.scheduled > 0 {
            self.scheduled -= 1;
            self.actor.handle_request(AccountRequests::AcceptRequestRequest(accounts::actors::account::Accept), 0);
            self.perform();
        }
    }

    fn row(&self, client: u32) -> (u32, Amount, Amount, Amount, bool) {
        let row = self.aggregator.get(client).unwrap();
        (row.client, row.available, row.held, row.total, row.locked)
    }
}

fn dec(mantissa: i128, scale: u32) -> Amount {
    Amount::new(mantissa, scale).unwrap()
}

#[test]
fn out_of_order_success() {
    let mut bench = Bench::new(0);
    bench.send("withdrawal", 0, 1, Some((5, 1)));
    bench.send("deposit", 0, 0, Some((10, 1)));
    bench.wait();
    assert!(bench.answers.iter().all(|(_, r)| matches!(
        r,
        AccountResponses::DepositResponse(accounts::actors::account::DepositResponse::Done)
            | AccountResponses::WithdrawResponse(WithdrawResponse::Done)
    )));
    let (client, available, held, total, locked) = bench.row(0);
    assert_eq!(client, 0);
    assert!(available == dec(5, 1));
    assert!(held == dec(0, 0));
    assert!(total == dec(5, 1));
    assert!(!locked);
}

#[test]
fn out_of_order_failure_when_serialised() {
    let mut bench = Bench::new(0);
    bench.send("withdrawal", 0, 1, Some((5, 1)));
    bench.wait();
    bench.send("deposit", 0, 0, Some((10, 1)));
    bench.wait();
    assert_eq!(
        bench.answers[0],
        (
            0,
            AccountResponses::WithdrawResponse(WithdrawResponse::Error(
                AccountErrors::NegativeAmount
            ))
        )
    );
    let (_, available, held, total, locked) = bench.row(0);
    assert!(available == dec(1, 0));
    assert!(held.is_zero());
    assert!(total == dec(1, 0));
    assert!(!locked);
}

#[test]
fn deposit_dispute_resolve() {
    let mut bench = Bench::new(1);
    bench.send("deposit", 1, 10, Some((30, 1)));
    bench.send("dispute", 1, 10, None);
    bench.send("resolve", 1, 10, None);
    bench.wait();
    assert_eq!(bench.events, 3);
    let (client, available, held, total, locked) = bench.row(1);
    assert_eq!(client, 1);
    assert!(available == dec(3, 0));
    assert!(held.is_zero());
    assert!(total == dec(3, 0));
    assert!(!locked);
}

#[test]
fn deposit_dispute_chargeback() {
    let mut bench = Bench::new(2);
    bench.send("deposit", 2, 20, Some((50, 1)));
    bench.send("deposit", 2, 21, Some((20, 1)));
    bench.send("dispute", 2, 20, None);
    bench.send("chargeback", 2, 20, None);
    bench.wait();
    let (client, available, held, total, locked) = bench.row(2);
    assert_eq!(client, 2);
    assert!(available == dec(2, 0));
    assert!(held.is_zero());
    assert!(total == dec(2, 0));
    assert!(locked);
}

#[test]
fn dispute_before_its_target_arrives() {
    let mut bench = Bench::new(3);
    bench.send("dispute", 3, 30, None);
    bench.send("deposit", 3, 30, Some((40, 1)));
    bench.wait();
    // the dispute waited for the deposit and then held its amount
    let (_, available, held, total, locked) = bench.row(3);
    assert!(available.is_zero());
    assert!(held == dec(4, 0));
    assert!(total == dec(4, 0));
    assert!(!locked);
}

#[test]
fn unknown_command_changes_nothing() {
    assert!(to_request("magic", 1, 1, None).is_err());
    let bench = Bench::new(4);
    assert!(bench.aggregator.get(4).is_none());
}
