//! The actor of one account.
//!
//! Deposits and withdrawals are not applied as they arrive. Each is buffered
//! under its transaction id, and an `Accept` is scheduled for it; each
//! `Accept` releases the buffered request with the smallest id. Disputes,
//! resolutions and charge-backs wait for the transaction they refer to and
//! are applied, in the order of their arrival, right after it is released.
//! A second request buffered under an id replaces the first.

use crate::domain::account::Account;
use crate::domain::account::AccountErrors;
use crate::domain::account::AccountView;
use crate::domain::events::AllEvents;
use crate::domain::events::EventView;
use crate::domain::money::Money;
use crate::domain::DomainResult;
use crate::order::take_first;
use crate::order::least;
use std::collections::BTreeMap;
use vstd::prelude::*;
use vstd::std_specs::convert::FromSpecImpl;

verus! {

#[derive(Clone, Copy, Debug)]
pub struct DepositRequest {
    pub account_id: u32,
    pub transaction_id: u32,
    pub amount: Money,
}

#[derive(PartialEq, Eq, Clone, Copy, Debug, Structural)]
pub enum DepositResponse {
    Done,
    Error(AccountErrors),
}

#[derive(Clone, Copy, Debug)]
pub struct WithdrawRequest {
    pub account_id: u32,
    pub transaction_id: u32,
    pub amount: Money,
}

#[derive(PartialEq, Eq, Clone, Copy, Debug, Structural)]
pub enum WithdrawResponse {
    Done,
    Error(AccountErrors),
}

#[derive(PartialEq, Eq, Clone, Copy, Debug, Structural)]
pub struct DisputeRequest {
    pub account_id: u32,
    pub transaction_id: u32,
}

#[derive(PartialEq, Eq, Clone, Copy, Debug, Structural)]
pub enum DisputeResponse {
    Done,
    Error(AccountErrors),
}

#[derive(PartialEq, Eq, Clone, Copy, Debug, Structural)]
pub struct ResolveRequest {
    pub account_id: u32,
    pub transaction_id: u32,
}

#[derive(PartialEq, Eq, Clone, Copy, Debug, Structural)]
pub enum ResolveResponse {
    Done,
    Error(AccountErrors),
}

#[derive(PartialEq, Eq, Clone, Copy, Debug, Structural)]
pub struct ChargebackRequest {
    pub account_id: u32,
    pub transaction_id: u32,
}

#[derive(PartialEq, Eq, Clone, Copy, Debug, Structural)]
pub enum ChargebackResponse {
    Done,
    Error(AccountErrors),
}

/// The message that releases one buffered request.
#[derive(PartialEq, Eq, Clone, Copy, Debug, Structural)]
pub struct Accept;

/// Everything that can be asked of an account actor.
#[derive(Clone, Copy, Debug)]
pub enum AccountRequests {
    DepositRequest(DepositRequest),
    WithdrawRequest(WithdrawRequest),
    DisputeRequest(DisputeRequest),
    ResolveRequest(ResolveRequest),
    ChargebackRequest(ChargebackRequest),
    AcceptRequestRequest(Accept),
}

/// Everything that an account actor answers.
#[derive(PartialEq, Eq, Clone, Copy, Debug, Structural)]
pub enum AccountResponses {
    DepositResponse(DepositResponse),
    WithdrawResponse(WithdrawResponse),
    DisputeResponse(DisputeResponse),
    ResolveResponse(ResolveResponse),
    ChargebackResponse(ChargebackResponse),
    AcceptRequestResponse(Accept),
}

impl AccountRequests {
    /// The request names an account and a transaction; an `Accept` names
    /// neither.
    pub open spec fn has_ids(self) -> bool {
        !(self is AcceptRequestRequest)
    }

    /// The request is a deposit or a withdrawal.
    pub open spec fn is_movement(self) -> bool {
        self is DepositRequest || self is WithdrawRequest
    }

    pub open spec fn account_id(self) -> u32
        recommends
            self.has_ids(),
    {
        match self {
            AccountRequests::DepositRequest(x) => x.account_id,
            AccountRequests::WithdrawRequest(x) => x.account_id,
            AccountRequests::DisputeRequest(x) => x.account_id,
            AccountRequests::ResolveRequest(x) => x.account_id,
            AccountRequests::ChargebackRequest(x) => x.account_id,
            AccountRequests::AcceptRequestRequest(_) => 0,
        }
    }

    pub open spec fn transaction_id(self) -> u32
        recommends
            self.has_ids(),
    {
        match self {
            AccountRequests::DepositRequest(x) => x.transaction_id,
            AccountRequests::WithdrawRequest(x) => x.transaction_id,
            AccountRequests::DisputeRequest(x) => x.transaction_id,
            AccountRequests::ResolveRequest(x) => x.transaction_id,
            AccountRequests::ChargebackRequest(x) => x.transaction_id,
            AccountRequests::AcceptRequestRequest(_) => 0,
        }
    }

    pub fn get_account_id(&self) -> (id: u32)
        requires
            self.has_ids(),
        ensures
            id == self.account_id(),
    {
        match self {
            AccountRequests::DepositRequest(x) => x.account_id,
            AccountRequests::WithdrawRequest(x) => x.account_id,
            AccountRequests::DisputeRequest(x) => x.account_id,
            AccountRequests::ResolveRequest(x) => x.account_id,
            AccountRequests::ChargebackRequest(x) => x.account_id,
            AccountRequests::AcceptRequestRequest(_) => unreached(),
        }
    }

    pub fn get_transaction_id(&self) -> (id: u32)
        requires
            self.has_ids(),
        ensures
            id == self.transaction_id(),
    {
        match self {
            AccountRequests::DepositRequest(x) => x.transaction_id,
            AccountRequests::WithdrawRequest(x) => x.transaction_id,
            AccountRequests::DisputeRequest(x) => x.transaction_id,
            AccountRequests::ResolveRequest(x) => x.transaction_id,
            AccountRequests::ChargebackRequest(x) => x.transaction_id,
            AccountRequests::AcceptRequestRequest(_) => unreached(),
        }
    }
}

impl From<DepositRequest> for AccountRequests {
    fn from(item: DepositRequest) -> (r: AccountRequests) {
        AccountRequests::DepositRequest(item)
    }
}

impl FromSpecImpl<DepositRequest> for AccountRequests {
    open spec fn obeys_from_spec() -> bool {
        true
    }

    open spec fn from_spec(item: DepositRequest) -> AccountRequests {
        AccountRequests::DepositRequest(item)
    }
}

impl From<WithdrawRequest> for AccountRequests {
    fn from(item: WithdrawRequest) -> (r: AccountRequests) {
        AccountRequests::WithdrawRequest(item)
    }
}

impl FromSpecImpl<WithdrawRequest> for AccountRequests {
    open spec fn obeys_from_spec() -> bool {
        true
    }

    open spec fn from_spec(item: WithdrawRequest) -> AccountRequests {
        AccountRequests::WithdrawRequest(item)
    }
}

impl From<DisputeRequest> for AccountRequests {
    fn from(item: DisputeRequest) -> (r: AccountRequests) {
        AccountRequests::DisputeRequest(item)
    }
}

impl FromSpecImpl<DisputeRequest> for AccountRequests {
    open spec fn obeys_from_spec() -> bool {
        true
    }

    open spec fn from_spec(item: DisputeRequest) -> AccountRequests {
        AccountRequests::DisputeRequest(item)
    }
}

impl From<ResolveRequest> for AccountRequests {
    fn from(item: ResolveRequest) -> (r: AccountRequests) {
        AccountRequests::ResolveRequest(item)
    }
}

impl FromSpecImpl<ResolveRequest> for AccountRequests {
    open spec fn obeys_from_spec() -> bool {
        true
    }

    open spec fn from_spec(item: ResolveRequest) -> AccountRequests {
        AccountRequests::ResolveRequest(item)
    }
}

impl From<ChargebackRequest> for AccountRequests {
    fn from(item: ChargebackRequest) -> (r: AccountRequests) {
        AccountRequests::ChargebackRequest(item)
    }
}

impl FromSpecImpl<ChargebackRequest> for AccountRequests {
    open spec fn obeys_from_spec() -> bool {
        true
    }

    open spec fn from_spec(item: ChargebackRequest) -> AccountRequests {
        AccountRequests::ChargebackRequest(item)
    }
}

impl From<Accept> for AccountRequests {
    fn from(item: Accept) -> (r: AccountRequests) {
        AccountRequests::AcceptRequestRequest(item)
    }
}

impl FromSpecImpl<Accept> for AccountRequests {
    open spec fn obeys_from_spec() -> bool {
        true
    }

    open spec fn from_spec(item: Accept) -> AccountRequests {
        AccountRequests::AcceptRequestRequest(item)
    }
}

impl From<DepositResponse> for AccountResponses {
    fn from(item: DepositResponse) -> (r: AccountResponses) {
        AccountResponses::DepositResponse(item)
    }
}

impl FromSpecImpl<DepositResponse> for AccountResponses {
    open spec fn obeys_from_spec() -> bool {
        true
    }

    open spec fn from_spec(item: DepositResponse) -> AccountResponses {
        AccountResponses::DepositResponse(item)
    }
}

impl From<WithdrawResponse> for AccountResponses {
    fn from(item: WithdrawResponse) -> (r: AccountResponses) {
        AccountResponses::WithdrawResponse(item)
    }
}

impl FromSpecImpl<WithdrawResponse> for AccountResponses {
    open spec fn obeys_from_spec() -> bool {
        true
    }

    open spec fn from_spec(item: WithdrawResponse) -> AccountResponses {
        AccountResponses::WithdrawResponse(item)
    }
}

impl From<DisputeResponse> for AccountResponses {
    fn from(item: DisputeResponse) -> (r: AccountResponses) {
        AccountResponses::DisputeResponse(item)
    }
}

impl FromSpecImpl<DisputeResponse> for AccountResponses {
    open spec fn obeys_from_spec() -> bool {
        true
    }

    open spec fn from_spec(item: DisputeResponse) -> AccountResponses {
        AccountResponses::DisputeResponse(item)
    }
}

impl From<ResolveResponse> for AccountResponses {
    fn from(item: ResolveResponse) -> (r: AccountResponses) {
        AccountResponses::ResolveResponse(item)
    }
}

impl FromSpecImpl<ResolveResponse> for AccountResponses {
    open spec fn obeys_from_spec() -> bool {
        true
    }

    open spec fn from_spec(item: ResolveResponse) -> AccountResponses {
        AccountResponses::ResolveResponse(item)
    }
}

impl From<ChargebackResponse> for AccountResponses {
    fn from(item: ChargebackResponse) -> (r: AccountResponses) {
        AccountResponses::ChargebackResponse(item)
    }
}

impl FromSpecImpl<ChargebackResponse> for AccountResponses {
    open spec fn obeys_from_spec() -> bool {
        true
    }

    open spec fn from_spec(item: ChargebackResponse) -> AccountResponses {
        AccountResponses::ChargebackResponse(item)
    }
}

impl From<Accept> for AccountResponses {
    fn from(item: Accept) -> (r: AccountResponses) {
        AccountResponses::AcceptRequestResponse(item)
    }
}

impl FromSpecImpl<Accept> for AccountResponses {
    open spec fn obeys_from_spec() -> bool {
        true
    }

    open spec fn from_spec(item: Accept) -> AccountResponses {
        AccountResponses::AcceptRequestResponse(item)
    }
}

/// A dispute, resolution or charge-back that waits for its transaction,
/// with the handle on which its answer is owed.
pub enum Disputes<R> {
    Dispute(DisputeRequest, R),
    Resolve(ResolveRequest, R),
    Chargeback(ChargebackRequest, R),
}

impl<R> Disputes<R> {
    pub open spec fn request(self) -> AccountRequests {
        match self {
            Disputes::Dispute(r, _) => AccountRequests::DisputeRequest(r),
            Disputes::Resolve(r, _) => AccountRequests::ResolveRequest(r),
            Disputes::Chargeback(r, _) => AccountRequests::ChargebackRequest(r),
        }
    }

    pub open spec fn reply(self) -> R {
        match self {
            Disputes::Dispute(_, reply) => reply,
            Disputes::Resolve(_, reply) => reply,
            Disputes::Chargeback(_, reply) => reply,
        }
    }
}

/// What the actor asks of the program that runs it.
pub enum Effect<R> {
    /// Publish the event on the bus.
    Publish(AllEvents),
    /// Send the response on the reply handle.
    Reply(R, AccountResponses),
    /// Deliver an `Accept` to this actor once the release window has passed.
    ScheduleAccept,
}

/// The mathematical content of an effect.
pub enum EffectView<R> {
    Publish(EventView),
    Reply(R, AccountResponses),
    ScheduleAccept,
}

impl<R> View for Effect<R> {
    type V = EffectView<R>;

    open spec fn view(&self) -> EffectView<R> {
        match *self {
            Effect::Publish(event) => EffectView::Publish(event@),
            Effect::Reply(reply, response) => EffectView::Reply(reply, response),
            Effect::ScheduleAccept => EffectView::ScheduleAccept,
        }
    }
}

/// The contents of a list of effects.
pub open spec fn effects_view<R>(effects: Seq<Effect<R>>) -> Seq<EffectView<R>> {
    effects.map_values(|e: Effect<R>| e@)
}

/// What the domain makes of a request that is applied under transaction id
/// `tx`: the next state of the account, or the reason for none.
pub open spec fn outcome(s: AccountView, tx: u32, request: AccountRequests) -> Result<
    AccountView,
    AccountErrors,
> {
    match request {
        AccountRequests::DepositRequest(r) => s.deposit(tx, r.amount),
        AccountRequests::WithdrawRequest(r) => s.withdraw(tx, r.amount),
        AccountRequests::DisputeRequest(_) => s.dispute(tx),
        AccountRequests::ResolveRequest(_) => s.resolve(tx),
        AccountRequests::ChargebackRequest(_) => s.chargeback(tx),
        AccountRequests::AcceptRequestRequest(_) => Ok(s),
    }
}

/// The answer to a request that succeeded (`failure` is `None`) or failed.
pub open spec fn response(request: AccountRequests, failure: Option<AccountErrors>)
    -> AccountResponses {
    match request {
        AccountRequests::DepositRequest(_) => AccountResponses::DepositResponse(
            match failure {
                None => DepositResponse::Done,
                Some(e) => DepositResponse::Error(e),
            },
        ),
        AccountRequests::WithdrawRequest(_) => AccountResponses::WithdrawResponse(
            match failure {
                None => WithdrawResponse::Done,
                Some(e) => WithdrawResponse::Error(e),
            },
        ),
        AccountRequests::DisputeRequest(_) => AccountResponses::DisputeResponse(
            match failure {
                None => DisputeResponse::Done,
                Some(e) => DisputeResponse::Error(e),
            },
        ),
        AccountRequests::ResolveRequest(_) => AccountResponses::ResolveResponse(
            match failure {
                None => ResolveResponse::Done,
                Some(e) => ResolveResponse::Error(e),
            },
        ),
        AccountRequests::ChargebackRequest(_) => AccountResponses::ChargebackResponse(
            match failure {
                None => ChargebackResponse::Done,
                Some(e) => ChargebackResponse::Error(e),
            },
        ),
        AccountRequests::AcceptRequestRequest(a) => AccountResponses::AcceptRequestResponse(a),
    }
}

/// The error of a step that failed.
pub open spec fn failure_of(step: Result<AccountView, AccountErrors>) -> Option<AccountErrors> {
    match step {
        Ok(_) => None,
        Err(e) => Some(e),
    }
}

/// Applying one request: the account it leaves and the effects it has. A
/// success publishes the event that reports the new state and then answers;
/// a failure only answers.
pub open spec fn handled<R>(s: AccountView, tx: u32, request: AccountRequests, reply: R) -> (
    AccountView,
    Seq<EffectView<R>>,
) {
    match outcome(s, tx, request) {
        Ok(next) => (
            next,
            seq![
                EffectView::Publish(next.updated(tx)),
                EffectView::Reply(reply, response(request, None)),
            ],
        ),
        Err(e) => (s, seq![EffectView::Reply(reply, response(request, Some(e)))]),
    }
}

/// Applying the waiting disputes of transaction `tx` in the order of their
/// arrival.
pub open spec fn drained<R>(s: AccountView, tx: u32, waiting: Seq<Disputes<R>>) -> (
    AccountView,
    Seq<EffectView<R>>,
)
    decreases waiting.len(),
{
    if waiting.len() == 0 {
        (s, Seq::empty())
    } else {
        let (before, effects) = drained(s, tx, waiting.drop_last());
        let (after, more) = handled(
            before,
            tx,
            waiting.last().request(),
            waiting.last().reply(),
        );
        (after, effects + more)
    }
}

/// The mathematical state of an account actor.
pub struct AccountActorView<R> {
    pub account: AccountView,
    /// The buffered deposits and withdrawals, each with its reply handle.
    pub requests: Map<u32, (AccountRequests, R)>,
    /// The disputes that wait for a transaction, in the order of arrival.
    pub disputes: Map<u32, Seq<Disputes<R>>>,
    /// The effects that the actor has asked for and that nobody took yet.
    pub outbox: Seq<EffectView<R>>,
}

impl<R> AccountActorView<R> {
    /// The disputes that wait for `tx`.
    pub open spec fn waiting(self, tx: u32) -> Seq<Disputes<R>> {
        if self.disputes.contains_key(tx) {
            self.disputes[tx]
        } else {
            Seq::empty()
        }
    }

    /// After a request was applied under transaction id `tx` with no answer
    /// sent yet: on success the account has moved on and the event that
    /// reports it is to be published; on failure nothing has changed.
    pub open spec fn applied(self, tx: u32, request: AccountRequests) -> AccountActorView<R> {
        match outcome(self.account, tx, request) {
            Ok(next) => AccountActorView {
                account: next,
                outbox: self.outbox.push(EffectView::Publish(next.updated(tx))),
                ..self
            },
            Err(_) => self,
        }
    }

    /// After a deposit or withdrawal was buffered.
    pub open spec fn scheduled(self, request: AccountRequests, reply: R) -> AccountActorView<R> {
        AccountActorView {
            requests: self.requests.insert(request.transaction_id(), (request, reply)),
            outbox: self.outbox.push(EffectView::ScheduleAccept),
            ..self
        }
    }

    /// After a dispute was put in the queue of `tx`.
    pub open spec fn deferred(self, tx: u32, dispute: Disputes<R>) -> AccountActorView<R> {
        AccountActorView { disputes: self.disputes.insert(tx, self.waiting(tx).push(dispute)), ..self }
    }

    /// After an `Accept`: with nothing buffered nothing happens; otherwise
    /// the request with the smallest id is applied and answered, and then
    /// the disputes that waited for it.
    pub open spec fn accepted(self) -> AccountActorView<R> {
        if self.requests.dom() == Set::<u32>::empty() {
            self
        } else {
            let tx = least(self.requests.dom());
            let (request, reply) = self.requests[tx];
            let (first, effects) = handled(self.account, tx, request, reply);
            let (last, more) = drained(first, tx, self.waiting(tx));
            AccountActorView {
                account: last,
                requests: self.requests.remove(tx),
                disputes: self.disputes.remove(tx),
                outbox: self.outbox + effects + more,
            }
        }
    }

    /// After any message arrived with its reply handle.
    pub open spec fn received(self, request: AccountRequests, reply: R) -> AccountActorView<R> {
        match request {
            AccountRequests::AcceptRequestRequest(_) => self.accepted(),
            AccountRequests::DepositRequest(_) => self.scheduled(request, reply),
            AccountRequests::WithdrawRequest(_) => self.scheduled(request, reply),
            AccountRequests::DisputeRequest(r) => self.deferred(
                r.transaction_id,
                Disputes::Dispute(r, reply),
            ),
            AccountRequests::ResolveRequest(r) => self.deferred(
                r.transaction_id,
                Disputes::Resolve(r, reply),
            ),
            AccountRequests::ChargebackRequest(r) => self.deferred(
                r.transaction_id,
                Disputes::Chargeback(r, reply),
            ),
        }
    }
}

/// The state of an account actor: the account, the buffered requests, the
/// waiting disputes, and the effects not yet taken by the program.
pub struct AccountActor<R> {
    account: Account,
    requests: BTreeMap<u32, (AccountRequests, R)>,
    disputes: BTreeMap<u32, Vec<Disputes<R>>>,
    outbox: Vec<Effect<R>>,
}

/// The contents of the waiting disputes.
pub open spec fn disputes_view<R>(disputes: Map<u32, Vec<Disputes<R>>>) -> Map<
    u32,
    Seq<Disputes<R>>,
> {
    disputes.map_values(|list: Vec<Disputes<R>>| list@)
}

impl<R> View for AccountActor<R> {
    type V = AccountActorView<R>;

    closed spec fn view(&self) -> AccountActorView<R> {
        AccountActorView {
            account: self.account@,
            requests: self.requests@,
            disputes: disputes_view(self.disputes@),
            outbox: effects_view(self.outbox@),
        }
    }
}

/// Queues the events for publication, in their order.
fn publish_all<R>(outbox: &mut Vec<Effect<R>>, events: Vec<AllEvents>)
    ensures
        effects_view(final(outbox)@) == effects_view(old(outbox)@) + events@.map_values(
            |e: AllEvents| EffectView::<R>::Publish(e@),
        ),
{
    let ghost start = effects_view(outbox@);
    let ghost published = events@.map_values(|e: AllEvents| EffectView::<R>::Publish(e@));
    let mut i: usize = 0;
    assert(effects_view(outbox@) =~= start + published.take(0));
    while i < events.len()
        invariant
            i <= events@.len(),
            published == events@.map_values(|e: AllEvents| EffectView::<R>::Publish(e@)),
            effects_view(outbox@) == start + published.take(i as int),
        decreases events@.len() - i,
    {
        let ghost before = outbox@;
        outbox.push(Effect::Publish(events[i]));
        assert(effects_view(outbox@) =~= effects_view(before).push(published[i as int]));
        assert(published.take(i + 1) =~= published.take(i as int).push(published[i as int]));
        i = i + 1;
    }
    assert(published.take(events@.len() as int) =~= published);
}

/// Applies one request to the account under transaction id `tx` and queues
/// the event of a success. The answer is handed back, not queued.
fn apply<R>(
    account: &mut Account,
    outbox: &mut Vec<Effect<R>>,
    tx: u32,
    request: AccountRequests,
) -> (r: AccountResponses)
    requires
        request.has_ids(),
    ensures
        r == response(request, failure_of(outcome(old(account)@, tx, request))),
        match outcome(old(account)@, tx, request) {
            Ok(next) => final(account)@ == next && effects_view(final(outbox)@) == effects_view(
                old(outbox)@,
            ).push(EffectView::Publish(next.updated(tx))),
            Err(_) => final(account)@ == old(account)@ && effects_view(final(outbox)@)
                == effects_view(old(outbox)@),
        },
{
    let ghost start = effects_view(outbox@);
    let result = match request {
        AccountRequests::DepositRequest(r) => account.deposit(tx, r.amount),
        AccountRequests::WithdrawRequest(r) => account.withdraw(tx, r.amount),
        AccountRequests::DisputeRequest(_) => account.dispute(tx),
        AccountRequests::ResolveRequest(_) => account.resolve(tx),
        _ => account.chargeback(tx),
    };
    let failure = match result {
        DomainResult::Done { events, .. } => {
            let ghost published = events@.map_values(|e: AllEvents| EffectView::<R>::Publish(e@));
            publish_all(outbox, events);
            assert(start + published =~= start.push(published[0]));
            None
        },
        DomainResult::Failed(err) => Some(err),
    };
    match request {
        AccountRequests::DepositRequest(_) => AccountResponses::DepositResponse(
            match failure {
                None => DepositResponse::Done,
                Some(e) => DepositResponse::Error(e),
            },
        ),
        AccountRequests::WithdrawRequest(_) => AccountResponses::WithdrawResponse(
            match failure {
                None => WithdrawResponse::Done,
                Some(e) => WithdrawResponse::Error(e),
            },
        ),
        AccountRequests::DisputeRequest(_) => AccountResponses::DisputeResponse(
            match failure {
                None => DisputeResponse::Done,
                Some(e) => DisputeResponse::Error(e),
            },
        ),
        AccountRequests::ResolveRequest(_) => AccountResponses::ResolveResponse(
            match failure {
                None => ResolveResponse::Done,
                Some(e) => ResolveResponse::Error(e),
            },
        ),
        _ => AccountResponses::ChargebackResponse(
            match failure {
                None => ChargebackResponse::Done,
                Some(e) => ChargebackResponse::Error(e),
            },
        ),
    }
}

impl<R> AccountActor<R> {
    /// Only deposits and withdrawals are ever buffered.
    #[verifier::type_invariant]
    spec fn inv(self) -> bool {
        forall|tx: u32| #[trigger]
            self.requests@.contains_key(tx) ==> self.requests@[tx].0.is_movement()
    }

    /// An actor for the account, with nothing buffered and nothing waiting.
    pub fn new(account: Account) -> (actor: AccountActor<R>)
        ensures
            actor@ == (AccountActorView::<R> {
                account: account@,
                requests: Map::empty(),
                disputes: Map::empty(),
                outbox: Seq::empty(),
            }),
    {
        let requests: BTreeMap<u32, (AccountRequests, R)> = BTreeMap::new();
        let disputes: BTreeMap<u32, Vec<Disputes<R>>> = BTreeMap::new();
        let outbox: Vec<Effect<R>> = Vec::new();
        proof {
            assert(disputes_view(disputes@) =~= Map::<u32, Seq<Disputes<R>>>::empty());
            assert(effects_view(outbox@) =~= Seq::<EffectView<R>>::empty());
        }
        AccountActor { account, requests, disputes, outbox }
    }

    /// The account as it stands.
    pub fn account(&self) -> (account: &Account)
        ensures
            account@ == self@.account,
    {
        &self.account
    }

    /// How many requests are buffered.
    pub fn pending(&self) -> (n: usize)
        ensures
            self@.requests.dom().finite(),
            n == self@.requests.dom().len(),
    {
        self.requests.len()
    }

    /// Hands over the effects asked for since the last call, in their order.
    pub fn take_effects(&mut self) -> (effects: Vec<Effect<R>>)
        ensures
            effects_view(effects@) == old(self)@.outbox,
            final(self)@ == (AccountActorView { outbox: Seq::empty(), ..old(self)@ }),
    {
        proof {
            use_type_invariant(&*self);
        }
        let AccountActor { account, requests, disputes, outbox } = self.take();
        let empty: Vec<Effect<R>> = Vec::new();
        assert(effects_view(empty@) =~= Seq::<EffectView<R>>::empty());
        *self = AccountActor { account, requests, disputes, outbox: empty };
        outbox
    }

    /// Moves the state out and leaves a blank actor behind.
    fn take(&mut self) -> (this: AccountActor<R>)
        ensures
            this == *old(self),
    {
        let mut this = AccountActor::new(Account::new(0));
        core::mem::swap(self, &mut this);
        this
    }

    /// Takes one message: an `Accept` releases a buffered request, a deposit
    /// or withdrawal is buffered, anything else waits for its transaction.
    /// The reply handle of an `Accept` is dropped unanswered.
    pub fn handle_request(&mut self, request: AccountRequests, callback: R)
        ensures
            final(self)@ == old(self)@.received(request, callback),
    {
        match request {
            AccountRequests::AcceptRequestRequest(_) => self.accept_request(),
            AccountRequests::DepositRequest(_) => self.schedule_request(request, callback),
            AccountRequests::WithdrawRequest(_) => self.schedule_request(request, callback),
            AccountRequests::DisputeRequest(r) => self.add_dispute(
                r.transaction_id,
                Disputes::Dispute(r, callback),
            ),
            AccountRequests::ResolveRequest(r) => self.add_dispute(
                r.transaction_id,
                Disputes::Resolve(r, callback),
            ),
            AccountRequests::ChargebackRequest(r) => self.add_dispute(
                r.transaction_id,
                Disputes::Chargeback(r, callback),
            ),
        }
    }

    /// Applies a request under transaction id `transaction_id` and queues the
    /// event of a success.
    fn handle(&mut self, transaction_id: u32, request: AccountRequests) -> (r: AccountResponses)
        requires
            request.has_ids(),
        ensures
            final(self)@ == old(self)@.applied(transaction_id, request),
            r == response(
                request,
                failure_of(outcome(old(self)@.account, transaction_id, request)),
            ),
    {
        proof {
            use_type_invariant(&*self);
        }
        let AccountActor { account, requests, disputes, outbox } = self.take();
        let mut account = account;
        let mut outbox = outbox;
        let r = apply(&mut account, &mut outbox, transaction_id, request);
        *self = AccountActor { account, requests, disputes, outbox };
        r
    }

    pub fn handle_deposit(&mut self, transaction_id: u32, deposit: DepositRequest) -> (r:
        DepositResponse)
        ensures
            final(self)@ == old(self)@.applied(
                transaction_id,
                AccountRequests::DepositRequest(deposit),
            ),
            r == match old(self)@.account.deposit(transaction_id, deposit.amount) {
                Ok(_) => DepositResponse::Done,
                Err(e) => DepositResponse::Error(e),
            },
    {
        match self.handle(transaction_id, AccountRequests::DepositRequest(deposit)) {
            AccountResponses::DepositResponse(r) => r,
            _ => unreached(),
        }
    }

    pub fn handle_withdraw(&mut self, transaction_id: u32, withdraw: WithdrawRequest) -> (r:
        WithdrawResponse)
        ensures
            final(self)@ == old(self)@.applied(
                transaction_id,
                AccountRequests::WithdrawRequest(withdraw),
            ),
            r == match old(self)@.account.withdraw(transaction_id, withdraw.amount) {
                Ok(_) => WithdrawResponse::Done,
                Err(e) => WithdrawResponse::Error(e),
            },
    {
        match self.handle(transaction_id, AccountRequests::WithdrawRequest(withdraw)) {
            AccountResponses::WithdrawResponse(r) => r,
            _ => unreached(),
        }
    }

    pub fn handle_dispute(&mut self, transaction_id: u32, dispute: DisputeRequest) -> (r:
        DisputeResponse)
        ensures
            final(self)@ == old(self)@.applied(
                transaction_id,
                AccountRequests::DisputeRequest(dispute),
            ),
            r == match old(self)@.account.dispute(transaction_id) {
                Ok(_) => DisputeResponse::Done,
                Err(e) => DisputeResponse::Error(e),
            },
    {
        match self.handle(transaction_id, AccountRequests::DisputeRequest(dispute)) {
            AccountResponses::DisputeResponse(r) => r,
            _ => unreached(),
        }
    }

    pub fn handle_resolve(&mut self, transaction_id: u32, resolve: ResolveRequest) -> (r:
        ResolveResponse)
        ensures
            final(self)@ == old(self)@.applied(
                transaction_id,
                AccountRequests::ResolveRequest(resolve),
            ),
            r == match old(self)@.account.resolve(transaction_id) {
                Ok(_) => ResolveResponse::Done,
                Err(e) => ResolveResponse::Error(e),
            },
    {
        match self.handle(transaction_id, AccountRequests::ResolveRequest(resolve)) {
            AccountResponses::ResolveResponse(r) => r,
            _ => unreached(),
        }
    }

    pub fn handle_chargeback(&mut self, transaction_id: u32, chargeback: ChargebackRequest) -> (r:
        ChargebackResponse)
        ensures
            final(self)@ == old(self)@.applied(
                transaction_id,
                AccountRequests::ChargebackRequest(chargeback),
            ),
            r == match old(self)@.account.chargeback(transaction_id) {
                Ok(_) => ChargebackResponse::Done,
                Err(e) => ChargebackResponse::Error(e),
            },
    {
        match self.handle(transaction_id, AccountRequests::ChargebackRequest(chargeback)) {
            AccountResponses::ChargebackResponse(r) => r,
            _ => unreached(),
        }
    }

    /// Buffers a deposit or withdrawal under its transaction id and asks for
    /// an `Accept` once the release window has passed. A request already
    /// buffered under that id is replaced, and its reply handle dropped.
    pub fn schedule_request(&mut self, request: AccountRequests, callback: R)
        requires
            request.is_movement(),
        ensures
            final(self)@ == old(self)@.scheduled(request, callback),
    {
        proof {
            use_type_invariant(&*self);
        }
        let current_transaction_id = request.get_transaction_id();
        let AccountActor { account, requests, disputes, outbox } = self.take();
        let mut requests = requests;
        let mut outbox = outbox;
        let ghost before = outbox@;
        let _ = requests.insert(current_transaction_id, (request, callback));
        outbox.push(Effect::ScheduleAccept);
        assert(effects_view(outbox@) =~= effects_view(before).push(EffectView::ScheduleAccept));
        *self = AccountActor { account, requests, disputes, outbox };
    }

    /// Releases the buffered request with the smallest transaction id:
    /// applies it, answers it, and then does the same for each dispute that
    /// waited for it, in the order of their arrival. With nothing buffered
    /// nothing happens.
    pub fn accept_request(&mut self)
        ensures
            final(self)@ == old(self)@.accepted(),
    {
        proof {
            use_type_invariant(&*self);
        }
        let AccountActor { account, requests, disputes, outbox } = self.take();
        let mut account = account;
        let mut requests = requests;
        let mut disputes = disputes;
        let mut outbox = outbox;
        let ghost start = AccountActorView {
            account: account@,
            requests: requests@,
            disputes: disputes_view(disputes@),
            outbox: effects_view(outbox@),
        };
        match take_first(&mut requests) {
            None => {},
            Some((transaction_id, (request, callback))) => {
                let ghost first = handled(start.account, transaction_id, request, callback);
                let response = apply(&mut account, &mut outbox, transaction_id, request);
                let ghost answered = outbox@;
                outbox.push(Effect::Reply(callback, response));
                proof {
                    assert(effects_view(outbox@) =~= effects_view(answered).push(
                        EffectView::Reply(callback, response),
                    ));
                    assert(effects_view(outbox@) =~= start.outbox + first.1);
                }
                let ghost waiting = start.waiting(transaction_id);
                let ghost base = effects_view(outbox@);
                let ghost kept = disputes@;
                let list = match disputes.remove(&transaction_id) {
                    Some(list) => list,
                    None => Vec::new(),
                };
                proof {
                    assert(disputes_view(disputes@) =~= start.disputes.remove(transaction_id));
                    assert(list@ == waiting);
                    assert(waiting.take(0) =~= Seq::<Disputes<R>>::empty());
                    assert(base + drained(first.0, transaction_id, waiting.take(0)).1 =~= base);
                }
                for dispute in it: list
                    invariant
                        it.seq() == waiting,
                        account@ == drained(first.0, transaction_id, waiting.take(it.index() as int)).0,
                        effects_view(outbox@) == base + drained(
                            first.0,
                            transaction_id,
                            waiting.take(it.index() as int),
                        ).1,
                {
                    let ghost i = it.index() as int;
                    let ghost so_far = drained(first.0, transaction_id, waiting.take(i));
                    proof {
                        assert(waiting.take(i + 1).drop_last() =~= waiting.take(i));
                        assert(waiting.take(i + 1).last() == dispute);
                    }
                    let ghost before = outbox@;
                    match dispute {
                        Disputes::Dispute(r, callback) => {
                            let response = apply(
                                &mut account,
                                &mut outbox,
                                transaction_id,
                                AccountRequests::DisputeRequest(r),
                            );
                            let ghost answered = outbox@;
                            outbox.push(Effect::Reply(callback, response));
                            assert(effects_view(outbox@) =~= effects_view(answered).push(
                                EffectView::Reply(callback, response),
                            ));
                        },
                        Disputes::Resolve(r, callback) => {
                            let response = apply(
                                &mut account,
                                &mut outbox,
                                transaction_id,
                                AccountRequests::ResolveRequest(r),
                            );
                            let ghost answered = outbox@;
                            outbox.push(Effect::Reply(callback, response));
                            assert(effects_view(outbox@) =~= effects_view(answered).push(
                                EffectView::Reply(callback, response),
                            ));
                        },
                        Disputes::Chargeback(r, callback) => {
                            let response = apply(
                                &mut account,
                                &mut outbox,
                                transaction_id,
                                AccountRequests::ChargebackRequest(r),
                            );
                            let ghost answered = outbox@;
                            outbox.push(Effect::Reply(callback, response));
                            assert(effects_view(outbox@) =~= effects_view(answered).push(
                                EffectView::Reply(callback, response),
                            ));
                        },
                    }
                    proof {
                        let step = handled(so_far.0, transaction_id, dispute.request(), dispute.reply());
                        assert(effects_view(outbox@) =~= effects_view(before) + step.1);
                        assert(effects_view(before) + step.1 =~= base + (so_far.1 + step.1));
                    }
                }
                proof {
                    assert(waiting.take(waiting.len() as int) =~= waiting);
                    let rest = drained(first.0, transaction_id, waiting);
                    assert(base + rest.1 =~= start.outbox + first.1 + rest.1);
                }
            },
        }
        *self = AccountActor { account, requests, disputes, outbox };
    }

    /// Puts a dispute at the end of the queue of its transaction.
    fn add_dispute(&mut self, transaction_id: u32, dispute: Disputes<R>)
        ensures
            final(self)@ == old(self)@.deferred(transaction_id, dispute),
    {
        proof {
            use_type_invariant(&*self);
        }
        let AccountActor { account, requests, disputes, outbox } = self.take();
        let mut disputes = disputes;
        let ghost before = disputes_view(disputes@);
        let mut list = match disputes.remove(&transaction_id) {
            Some(list) => list,
            None => Vec::new(),
        };
        list.push(dispute);
        let ghost queue = list@;
        disputes.insert(transaction_id, list);
        assert(disputes_view(disputes@) =~= before.insert(transaction_id, queue));
        *self = AccountActor { account, requests, disputes, outbox };
    }
}

/// Of two requests buffered under one transaction id the later one stays.
pub proof fn law_later_request_replaces<R>(
    s: AccountActorView<R>,
    earlier: AccountRequests,
    earlier_reply: R,
    later: AccountRequests,
    later_reply: R,
)
    requires
        earlier.transaction_id() == later.transaction_id(),
    ensures
        s.scheduled(earlier, earlier_reply).scheduled(later, later_reply).requests
            == s.requests.insert(later.transaction_id(), (later, later_reply)),
{
    let tx = later.transaction_id();
    assert(s.requests.insert(tx, (earlier, earlier_reply)).insert(tx, (later, later_reply))
        =~= s.requests.insert(tx, (later, later_reply)));
}

/// Each `Accept` takes one request out of the buffer, until none is left:
/// as many `Accept`s as requests were buffered empty it.
pub proof fn law_accept_takes_one<R>(s: AccountActorView<R>)
    requires
        s.requests.dom().finite(),
    ensures
        s.requests.dom().len() == 0 ==> s.accepted() == s,
        s.requests.dom().len() > 0 ==> s.accepted().requests.dom().len() + 1
            == s.requests.dom().len(),
        s.requests.dom().len() > 0 ==> !s.accepted().requests.contains_key(
            least(s.requests.dom()),
        ),
{
    let keys = s.requests.dom();
    if keys.len() == 0 {
        assert(keys =~= Set::<u32>::empty());
    } else {
        crate::order::lemma_least_exists(keys);
        assert(s.requests.remove(least(keys)).dom() =~= keys.remove(least(keys)));
    }
}

/// Two requests that are buffered together are released smaller
/// transaction id first, whichever arrived first: the first `Accept` applies
/// the one with the smaller id to the account as it stood, and leaves the
/// other in the buffer.
pub proof fn law_smaller_id_is_released_first<R>(
    s: AccountActorView<R>,
    smaller: AccountRequests,
    smaller_reply: R,
    larger: AccountRequests,
    larger_reply: R,
)
    requires
        s.requests.dom() == Set::<u32>::empty(),
        smaller.transaction_id() < larger.transaction_id(),
        !s.disputes.contains_key(smaller.transaction_id()),
    ensures
        ({
            let late = s.scheduled(larger, larger_reply).scheduled(smaller, smaller_reply);
            let early = s.scheduled(smaller, smaller_reply).scheduled(larger, larger_reply);
            let applied = handled(s.account, smaller.transaction_id(), smaller, smaller_reply).0;
            let left = Map::<u32, (AccountRequests, R)>::empty().insert(
                larger.transaction_id(),
                (larger, larger_reply),
            );
            &&& late.accepted().account == applied
            &&& late.accepted().requests == left
            &&& early.accepted().account == applied
            &&& early.accepted().requests == left
        }),
{
    let hi = larger.transaction_id();
    let lo = smaller.transaction_id();
    let left = Map::<u32, (AccountRequests, R)>::empty().insert(hi, (larger, larger_reply));
    let late = s.scheduled(larger, larger_reply).scheduled(smaller, smaller_reply);
    let early = s.scheduled(smaller, smaller_reply).scheduled(larger, larger_reply);
    let keys = Set::<u32>::empty().insert(hi).insert(lo);
    assert(late.requests.dom() =~= keys);
    assert(early.requests.dom() =~= keys);
    assert(keys.contains(lo));
    crate::order::lemma_least_unique(keys, lo);
    assert(late.waiting(lo) =~= Seq::<Disputes<R>>::empty());
    assert(early.waiting(lo) =~= Seq::<Disputes<R>>::empty());
    assert(late.requests.remove(lo) =~= left);
    assert(early.requests.remove(lo) =~= left);
}

} // verus!
