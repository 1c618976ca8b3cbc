//! The router of a set of managers: a consistent-hash ring of their
//! identifiers decides which manager owns an account.

use crate::actors::account::AccountRequests;
use crate::actors::account::AccountResponses;
use crate::actors::account_manager::AccountManagerClient;
use crate::actors::account_manager::AccountManagerResponses;
use hashring::DefaultHashBuilder;
use hashring::HashRing;
use vstd::multiset::Multiset;
use vstd::prelude::*;
use vstd::std_specs::convert::FromSpecImpl;

verus! {

#[verifier::external_type_specification]
#[verifier::external_body]
#[verifier::reject_recursive_types(T)]
#[verifier::reject_recursive_types(S)]
pub struct ExHashRing<T, S>(HashRing<T, S>);

#[verifier::external_type_specification]
#[verifier::external_body]
pub struct ExDefaultHashBuilder(DefaultHashBuilder);

/// The nodes on a ring, each as often as it was added.
pub uninterp spec fn ring_nodes(ring: HashRing<u64, DefaultHashBuilder>) -> Multiset<u64>;

/// The node that a ring names as the owner of a key. It depends on the nodes
/// and the key alone: the ring hashes with a hasher of fixed keys that takes
/// integers in one byte order on every machine.
pub uninterp spec fn ring_owner(ring: HashRing<u64, DefaultHashBuilder>, key: u32) -> Option<u64>;

/// Calls `HashRing::new` of `hashring`: a ring without nodes.
#[verifier::external_body]
fn ring_new() -> (ring: HashRing<u64, DefaultHashBuilder>)
    ensures
        ring_nodes(ring) == Multiset::<u64>::empty(),
{
    HashRing::new()
}

/// Calls `HashRing::add` of `hashring`, which puts the node on the ring and
/// keeps what was there.
#[verifier::external_body]
fn ring_add(ring: &mut HashRing<u64, DefaultHashBuilder>, node: u64)
    ensures
        ring_nodes(*final(ring)) == ring_nodes(*old(ring)).insert(node),
{
    ring.add(node)
}

/// Calls `HashRing::get` of `hashring`, which answers `None` on a ring
/// without nodes and one of the ring's nodes otherwise. Which node that is
/// follows from the hash of the key and is only named.
#[verifier::external_body]
fn ring_get(ring: &HashRing<u64, DefaultHashBuilder>, key: u32) -> (owner: Option<u64>)
    ensures
        owner == ring_owner(*ring, key),
        owner is None <==> ring_nodes(*ring).len() == 0,
        owner matches Some(node) ==> ring_nodes(*ring).count(node) > 0,
{
    ring.get(&key).copied()
}

#[derive(PartialEq, Eq, Clone, Copy, Debug, Structural)]
pub enum ShardErrors {
    /// There is no manager to send the request to.
    NoShardAvailable,
    /// The manager, or the account's actor behind it, is gone.
    Disconnected,
}

/// Everything that can be asked of a router.
#[derive(Clone, Copy, Debug)]
pub enum AccountShardRequests {
    AccountRequest(AccountRequests),
}

/// Everything that a router answers.
#[derive(PartialEq, Eq, Clone, Copy, Debug, Structural)]
pub enum AccountShardResponses {
    AccountResponse(AccountResponses),
    Error(ShardErrors),
}

impl From<AccountRequests> for AccountShardRequests {
    fn from(item: AccountRequests) -> (r: AccountShardRequests) {
        AccountShardRequests::AccountRequest(item)
    }
}

impl FromSpecImpl<AccountRequests> for AccountShardRequests {
    open spec fn obeys_from_spec() -> bool {
        true
    }

    open spec fn from_spec(item: AccountRequests) -> AccountShardRequests {
        AccountShardRequests::AccountRequest(item)
    }
}

impl From<AccountResponses> for AccountShardResponses {
    fn from(item: AccountResponses) -> (r: AccountShardResponses) {
        AccountShardResponses::AccountResponse(item)
    }
}

impl FromSpecImpl<AccountResponses> for AccountShardResponses {
    open spec fn obeys_from_spec() -> bool {
        true
    }

    open spec fn from_spec(item: AccountResponses) -> AccountShardResponses {
        AccountShardResponses::AccountResponse(item)
    }
}

impl From<AccountManagerResponses> for AccountShardResponses {
    /// What the router passes on of a manager's answer.
    fn from(item: AccountManagerResponses) -> (r: AccountShardResponses) {
        match item {
            AccountManagerResponses::AccountResponse(response) => {
                AccountShardResponses::AccountResponse(response)
            },
            AccountManagerResponses::Disconnected => AccountShardResponses::Error(
                ShardErrors::Disconnected,
            ),
        }
    }
}

impl FromSpecImpl<AccountManagerResponses> for AccountShardResponses {
    open spec fn obeys_from_spec() -> bool {
        true
    }

    open spec fn from_spec(item: AccountManagerResponses) -> AccountShardResponses {
        match item {
            AccountManagerResponses::AccountResponse(response) => {
                AccountShardResponses::AccountResponse(response)
            },
            AccountManagerResponses::Disconnected => AccountShardResponses::Error(
                ShardErrors::Disconnected,
            ),
        }
    }
}

/// The identifiers of the managers, in their order.
pub open spec fn ids_of<S>(managers: Seq<AccountManagerClient<S>>) -> Seq<u64> {
    managers.map_values(|m: AccountManagerClient<S>| m.id)
}

/// The place of the first manager with the identifier, or the number of
/// managers if none has it.
pub open spec fn place_of(ids: Seq<u64>, id: u64) -> int
    decreases ids.len(),
{
    if ids.len() == 0 {
        0
    } else if ids.first() == id {
        0
    } else {
        1 + place_of(ids.drop_first(), id)
    }
}

/// The place of the manager that an answer of the ring stands for: the first
/// manager with the identifier that the ring named, if there is one.
pub open spec fn place_for(ids: Seq<u64>, owner: Option<u64>) -> Option<int> {
    match owner {
        Some(id) => if place_of(ids, id) < ids.len() {
            Some(place_of(ids, id))
        } else {
            None
        },
        None => None,
    }
}

/// `place_of` finds the first occurrence, and the end where there is none.
pub proof fn lemma_place_of(ids: Seq<u64>, id: u64)
    ensures
        0 <= place_of(ids, id) <= ids.len(),
        forall|j: int| 0 <= j < place_of(ids, id) ==> ids[j] != id,
        place_of(ids, id) < ids.len() ==> ids[place_of(ids, id)] == id,
    decreases ids.len(),
{
    if ids.len() > 0 && ids.first() != id {
        let rest = ids.drop_first();
        lemma_place_of(rest, id);
        assert forall|j: int| 0 <= j < place_of(ids, id) implies ids[j] != id by {
            if j > 0 {
                assert(rest[j - 1] == ids[j]);
            }
        }
        if place_of(ids, id) < ids.len() {
            assert(rest[place_of(rest, id)] == ids[place_of(ids, id)]);
        }
    }
}

/// The state of a router. `S` is the endpoint on which a manager is reached.
pub struct AccountShardActor<S> {
    ring: HashRing<u64, DefaultHashBuilder>,
    managers: Vec<AccountManagerClient<S>>,
}

impl<S> View for AccountShardActor<S> {
    type V = Seq<AccountManagerClient<S>>;

    /// The managers that requests are routed to.
    closed spec fn view(&self) -> Seq<AccountManagerClient<S>> {
        self.managers@
    }
}

impl<S> AccountShardActor<S> {
    /// The ring holds the identifiers of the managers and nothing else.
    #[verifier::type_invariant]
    spec fn inv(self) -> bool {
        ring_nodes(self.ring) == ids_of(self.managers@).to_multiset()
    }

    /// The identifier that the ring names as the owner of an account, if the
    /// ring has any node.
    pub closed spec fn owner_of(&self, account_id: u32) -> Option<u64> {
        ring_owner(self.ring, account_id)
    }

    /// A router over the given managers.
    pub fn new(clients: Vec<AccountManagerClient<S>>) -> (actor: AccountShardActor<S>)
        ensures
            actor@ == clients@,
    {
        let mut ring = ring_new();
        let ghost ids = ids_of(clients@);
        let mut i: usize = 0;
        proof {
            assert(ids.take(0) =~= Seq::<u64>::empty());
            broadcast use vstd::seq_lib::group_seq_properties;
        }
        while i < clients.len()
            invariant
                i <= clients@.len(),
                ids == ids_of(clients@),
                ring_nodes(ring) == ids.take(i as int).to_multiset(),
            decreases clients@.len() - i,
        {
            ring_add(&mut ring, clients[i].id);
            proof {
                assert(ids.take(i + 1) =~= ids.take(i as int).push(ids[i as int]));
                broadcast use vstd::seq_lib::group_seq_properties;
                broadcast use vstd::multiset::group_multiset_properties;
                assert(ids.take(i as int).push(ids[i as int]).to_multiset() =~= ids.take(
                    i as int,
                ).to_multiset().insert(ids[i as int]));
            }
            i = i + 1;
        }
        assert(ids.take(clients@.len() as int) =~= ids);
        AccountShardActor { ring, managers: clients }
    }

    /// How many managers there are.
    pub fn len(&self) -> (n: usize)
        ensures
            n == self@.len(),
    {
        self.managers.len()
    }

    /// The manager that the ring's answer stands for: the first manager with
    /// the identifier that the ring named. Without an answer, or with an
    /// identifier that no manager has, there is no shard for the request.
    pub fn manager_of(&self, owner: Option<u64>) -> (r: Result<
        &AccountManagerClient<S>,
        ShardErrors,
    >)
        ensures
            match place_for(ids_of(self@), owner) {
                Some(place) => r matches Ok(manager) && *manager == self@[place],
                None => r matches Err(e) && e == ShardErrors::NoShardAvailable,
            },
    {
        let id = match owner {
            Some(id) => id,
            None => {
                return Err(ShardErrors::NoShardAvailable);
            },
        };
        let ghost ids = ids_of(self.managers@);
        proof {
            lemma_place_of(ids, id);
        }
        let mut i: usize = 0;
        while i < self.managers.len()
            invariant
                i <= self.managers@.len(),
                owner == Some(id),
                ids == ids_of(self.managers@),
                forall|j: int| 0 <= j < i ==> ids[j] != id,
                0 <= place_of(ids, id) <= ids.len(),
                forall|j: int| 0 <= j < place_of(ids, id) ==> ids[j] != id,
                place_of(ids, id) < ids.len() ==> ids[place_of(ids, id)] == id,
            decreases self.managers@.len() - i,
        {
            if self.managers[i].id == id {
                assert(ids[i as int] == id);
                assert(place_of(ids, id) == i);
                assert(ids.len() == self@.len());
                assert(self.managers[i as int] == self@[i as int]);
                return Ok(&self.managers[i]);
            }
            assert(ids[i as int] != id);
            i = i + 1;
        }
        assert(ids.len() == self@.len());
        Err(ShardErrors::NoShardAvailable)
    }

    /// Finds the manager that owns the account of the request: the one that
    /// the ring names for the account's id, and so the same one on every
    /// call. With no manager at all there is no shard; otherwise the ring
    /// names one of the managers.
    pub fn redirect_request(&self, request: &AccountRequests) -> (r: Result<
        &AccountManagerClient<S>,
        ShardErrors,
    >)
        requires
            request.has_ids(),
        ensures
            match place_for(ids_of(self@), self.owner_of(request.account_id())) {
                Some(place) => r matches Ok(manager) && *manager == self@[place],
                None => r matches Err(e) && e == ShardErrors::NoShardAvailable,
            },
            r is Err <==> self@.len() == 0,
            r matches Ok(manager) ==> self@.contains(*manager),
    {
        proof {
            use_type_invariant(self);
        }
        let account_id = request.get_account_id();
        let owner = ring_get(&self.ring, account_id);
        let ghost ids = ids_of(self.managers@);
        proof {
            broadcast use vstd::seq_lib::group_seq_properties;
            broadcast use vstd::multiset::group_multiset_properties;
            ids.to_multiset_ensures();
            if let Some(id) = owner {
                lemma_place_of(ids, id);
                assert(ids.to_multiset().count(id) > 0);
                assert(ids.contains(id));
                let k = choose|k: int| 0 <= k < ids.len() && ids[k] == id;
                assert(place_of(ids, id) <= k);
            }
        }
        self.manager_of(owner)
    }
}

} // verus!
