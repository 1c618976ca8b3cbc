use accounts::actors::account::AccountRequests;
use accounts::actors::account::AccountResponses;
use accounts::actors::account::DepositResponse;
use accounts::actors::account::DisputeRequest;
use accounts::actors::account_manager::AccountManagerActor;
use accounts::actors::account_manager::AccountManagerClient;
use accounts::actors::account_manager::AccountManagerRequests;
use accounts::actors::account_manager::AccountManagerResponses;
use accounts::actors::account_shard::AccountShardActor;
use accounts::actors::account_shard::AccountShardRequests;
use accounts::actors::account_shard::AccountShardResponses;
use accounts::actors::account_shard::ShardErrors;

fn dispute(account_id: u32, transaction_id: u32) -> AccountRequests {
    AccountRequests::DisputeRequest(DisputeRequest { account_id, transaction_id })
}

#[test]
fn manager_starts_an_actor_on_first_reference_only() {
    let started = std::cell::Cell::new(0);
    let mut manager: AccountManagerActor<String> = AccountManagerActor::new(7);
    assert_eq!(manager.id(), 7);
    assert!(manager.client(1).is_none());
    let spawn = |id: u32| {
        started.set(started.get() + 1);
        format!("actor of {id}")
    };
    assert_eq!(manager.handle_account_request(&dispute(1, 10), spawn), "actor of 1");
    assert_eq!(manager.handle_account_request(&dispute(1, 11), spawn), "actor of 1");
    assert_eq!(manager.handle_account_request(&dispute(2, 12), spawn), "actor of 2");
    assert_eq!(started.get(), 2);
    assert_eq!(manager.client(1).unwrap(), "actor of 1");
    assert_eq!(manager.client(2).unwrap(), "actor of 2");
    assert!(manager.client(3).is_none());
}

#[test]
fn manager_client_carries_the_id() {
    let manager: AccountManagerActor<u8> = AccountManagerActor::new(99);
    let client = manager.new_client("endpoint");
    assert_eq!(client.id, 99);
    assert_eq!(client.sender, "endpoint");
}

#[test]
fn empty_ring_has_no_shard() {
    let shard: AccountShardActor<&'static str> = AccountShardActor::new(vec![]);
    assert_eq!(shard.len(), 0);
    assert_eq!(shard.redirect_request(&dispute(5, 1)).unwrap_err(), ShardErrors::NoShardAvailable);
    assert_eq!(shard.manager_of(None).unwrap_err(), ShardErrors::NoShardAvailable);
    assert_eq!(shard.manager_of(Some(3)).unwrap_err(), ShardErrors::NoShardAvailable);
}

#[test]
fn single_manager_owns_every_account() {
    let shard = AccountShardActor::new(vec![AccountManagerClient { sender: "only", id: 0 }]);
    for account in [0u32, 1, 2, 77, u32::MAX] {
        let manager = shard.redirect_request(&dispute(account, 1)).unwrap();
        assert_eq!(manager.sender, "only");
    }
}

#[test]
fn ring_routes_each_account_to_one_of_the_managers_and_always_the_same() {
    let clients: Vec<AccountManagerClient<String>> =
        (0..8u64).map(|id| AccountManagerClient { sender: format!("m{id}"), id }).collect();
    let shard = AccountShardActor::new(clients);
    let mut used = std::collections::BTreeSet::new();
    for account in 0..2000u32 {
        let first = shard.redirect_request(&dispute(account, 1)).unwrap().id;
        let second = shard.redirect_request(&dispute(account, 2)).unwrap().id;
        assert_eq!(first, second);
        assert!(first < 8);
        used.insert(first);
    }
    // the accounts are spread over the managers
    assert!(used.len() > 1);
}

#[test]
fn manager_of_picks_the_first_manager_with_the_id() {
    let shard = AccountShardActor::new(vec![
        AccountManagerClient { sender: "a", id: 4 },
        AccountManagerClient { sender: "b", id: 9 },
        AccountManagerClient { sender: "c", id: 9 },
    ]);
    assert_eq!(shard.manager_of(Some(4)).unwrap().sender, "a");
    assert_eq!(shard.manager_of(Some(9)).unwrap().sender, "b");
    assert_eq!(shard.manager_of(Some(5)).unwrap_err(), ShardErrors::NoShardAvailable);
}

#[test]
fn envelopes_convert() {
    let request = dispute(1, 2);
    assert!(matches!(
        AccountManagerRequests::from(request),
        AccountManagerRequests::AccountRequest(AccountRequests::DisputeRequest(_))
    ));
    assert!(matches!(
        AccountShardRequests::from(request),
        AccountShardRequests::AccountRequest(AccountRequests::DisputeRequest(_))
    ));
    let response = AccountResponses::from(DepositResponse::Done);
    assert_eq!(response, AccountResponses::DepositResponse(DepositResponse::Done));
    let from_manager = AccountManagerResponses::from(response);
    assert_eq!(from_manager, AccountManagerResponses::AccountResponse(response));
    assert_eq!(
        AccountShardResponses::from(from_manager),
        AccountShardResponses::AccountResponse(response)
    );
    assert_eq!(
        AccountShardResponses::from(AccountManagerResponses::Disconnected),
        AccountShardResponses::Error(ShardErrors::Disconnected)
    );
    assert_eq!(AccountShardResponses::from(response), AccountShardResponses::AccountResponse(response));
}
