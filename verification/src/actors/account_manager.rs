//! The manager of the accounts of one shard: it knows the actor of every
//! account it has met and has a new one started for an account it meets for
//! the first time.

use crate::actors::account::AccountRequests;
use crate::actors::account::AccountResponses;
use std::collections::HashMap;
use vstd::prelude::*;
use vstd::std_specs::convert::FromSpecImpl;

verus! {

/// Everything that can be asked of a manager.
#[derive(Clone, Copy, Debug)]
pub enum AccountManagerRequests {
    AccountRequest(AccountRequests),
}

/// Everything that a manager answers.
#[derive(PartialEq, Eq, Clone, Copy, Debug, Structural)]
pub enum AccountManagerResponses {
    AccountResponse(AccountResponses),
    /// The account's actor is gone.
    Disconnected,
}

impl From<AccountRequests> for AccountManagerRequests {
    fn from(item: AccountRequests) -> (r: AccountManagerRequests) {
        AccountManagerRequests::AccountRequest(item)
    }
}

impl FromSpecImpl<AccountRequests> for AccountManagerRequests {
    open spec fn obeys_from_spec() -> bool {
        true
    }

    open spec fn from_spec(item: AccountRequests) -> AccountManagerRequests {
        AccountManagerRequests::AccountRequest(item)
    }
}

impl From<AccountResponses> for AccountManagerResponses {
    fn from(item: AccountResponses) -> (r: AccountManagerResponses) {
        AccountManagerResponses::AccountResponse(item)
    }
}

impl FromSpecImpl<AccountResponses> for AccountManagerResponses {
    open spec fn obeys_from_spec() -> bool {
        true
    }

    open spec fn from_spec(item: AccountResponses) -> AccountManagerResponses {
        AccountManagerResponses::AccountResponse(item)
    }
}

/// The handle of a manager: the endpoint on which it is reached, and the
/// identifier under which it is placed on the ring.
#[derive(Clone, Debug)]
pub struct AccountManagerClient<S> {
    pub sender: S,
    pub id: u64,
}

/// The state of a manager. `C` is the handle of an account actor.
pub struct AccountManagerActor<C> {
    id: u64,
    accounts: HashMap<u32, C>,
}

/// The mathematical state of a manager.
pub struct AccountManagerView<C> {
    pub id: u64,
    /// The handle of each account met so far.
    pub accounts: Map<u32, C>,
}

impl<C> View for AccountManagerActor<C> {
    type V = AccountManagerView<C>;

    closed spec fn view(&self) -> AccountManagerView<C> {
        AccountManagerView { id: self.id, accounts: self.accounts@ }
    }
}

impl<C> AccountManagerActor<C> {
    /// A manager that has met no account yet.
    pub fn new(id: u64) -> (actor: AccountManagerActor<C>)
        ensures
            actor@ == (AccountManagerView::<C> { id, accounts: Map::empty() }),
    {
        AccountManagerActor { id, accounts: HashMap::new() }
    }

    pub fn id(&self) -> (id: u64)
        ensures
            id == self@.id,
    {
        self.id
    }

    /// The handle of this manager on the given endpoint.
    pub fn new_client<S>(&self, sender: S) -> (client: AccountManagerClient<S>)
        ensures
            client.sender == sender,
            client.id == self@.id,
    {
        AccountManagerClient { sender, id: self.id }
    }

    /// The handle of the account's actor, if the account was met before.
    pub fn client(&self, account_id: u32) -> (client: Option<&C>)
        ensures
            client is Some <==> self@.accounts.contains_key(account_id),
            client matches Some(c) ==> *c == self@.accounts[account_id],
    {
        self.accounts.get(&account_id)
    }

    /// Finds the actor that the request is for. An account met for the first
    /// time gets the actor that `spawn` starts for it; that actor is kept for
    /// every later request.
    pub fn handle_account_request<F>(&mut self, request: &AccountRequests, spawn: F) -> (client: &C)
        where F: FnOnce(u32) -> C
        requires
            request.has_ids(),
            !old(self)@.accounts.contains_key(request.account_id()) ==> spawn.requires(
                (request.account_id(),),
            ),
        ensures
            final(self)@.id == old(self)@.id,
            final(self)@.accounts == old(self)@.accounts.insert(request.account_id(), *client),
            old(self)@.accounts.contains_key(request.account_id()) ==> *client == old(
                self,
            )@.accounts[request.account_id()],
            !old(self)@.accounts.contains_key(request.account_id()) ==> spawn.ensures(
                (request.account_id(),),
                *client,
            ),
    {
        let account_id = request.get_account_id();
        if !self.accounts.contains_key(&account_id) {
            let started = spawn(account_id);
            self.accounts.insert(account_id, started);
        }
        assert(self.accounts@ =~= old(self).accounts@.insert(account_id, self.accounts@[account_id]));
        match self.accounts.get(&account_id) {
            Some(client) => client,
            None => unreached(),
        }
    }
}

} // verus!
