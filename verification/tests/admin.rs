use nft_staking::contract::{instantiate, migrate};
use nft_staking::error::ContractError;
use nft_staking::host::{Env, MessageInfo, Response};
use nft_staking::msg::InstantiateMsg;
use nft_staking::state::{Collection, Ledger};
use nft_staking::util::{
    check_airdrop_start, check_collection_owner, check_enabled, check_owner, execute_registe_collection,
    execute_update_collection, execute_update_collection_fee, execute_update_collection_state,
    execute_update_fee_address, execute_update_owner, execute_update_tx_fee,
};

fn s(text: &str) -> String {
    text.to_string()
}

fn env(time: u64) -> Env {
    Env { time, contract_address: s("ledger") }
}

fn info(sender: &str) -> MessageInfo {
    MessageInfo { sender: s(sender), funds: vec![] }
}

fn ledger() -> Ledger {
    instantiate(
        env(1),
        info("anyone"),
        InstantiateMsg { owner: s("owner"), fee_address: s("fees"), native_token: s("inj"), tx_fee: 5 },
    )
}

fn registered() -> Ledger {
    let mut ledger = ledger();
    let r = execute_registe_collection(&mut ledger, s("owner"), s("coll"), s("coll_owner"), s("reward"), 100, 30);
    assert_eq!(r, Ok(Response { messages: vec![] }));
    ledger
}

#[test]
fn instantiate_sets_owner_as_creator() {
    let ledger = ledger();
    assert_eq!(ledger.config.owner, "owner");
    assert_eq!(ledger.config.creator, "owner");
    assert_eq!(ledger.config.fee_address, "fees");
    assert_eq!(ledger.config.native_token, "inj");
    assert_eq!(ledger.config.tx_fee, 5);
    assert!(ledger.collections.is_empty());
}

#[test]
fn migrate_keeps_the_ledger() {
    let mut ledger = registered();
    let before = ledger.clone();
    assert_eq!(migrate(&mut ledger, env(9)), Ok(Response { messages: vec![] }));
    assert_eq!(ledger, before);
}

#[test]
fn update_owner_by_owner() {
    let mut ledger = ledger();
    let r = execute_update_owner(&mut ledger, s("owner"), s("next"));
    assert_eq!(r, Ok(Response { messages: vec![] }));
    assert_eq!(ledger.config.owner, "next");
    assert_eq!(ledger.config.creator, "owner");
}

#[test]
fn creator_keeps_authority_after_handover() {
    let mut ledger = ledger();
    execute_update_owner(&mut ledger, s("owner"), s("next")).unwrap();
    // the creator, no longer the owner, may still change the settings
    assert!(execute_update_tx_fee(&mut ledger, s("owner"), 7).is_ok());
    assert!(execute_update_fee_address(&mut ledger, s("next"), s("vault")).is_ok());
    assert_eq!(ledger.config.tx_fee, 7);
    assert_eq!(ledger.config.fee_address, "vault");
}

#[test]
fn update_owner_unauthorized_leaves_the_ledger() {
    let mut ledger = ledger();
    let before = ledger.clone();
    assert_eq!(execute_update_owner(&mut ledger, s("mallory"), s("mallory")), Err(ContractError::Unauthorized));
    assert_eq!(execute_update_fee_address(&mut ledger, s("mallory"), s("mallory")), Err(ContractError::Unauthorized));
    assert_eq!(execute_update_tx_fee(&mut ledger, s("mallory"), 0), Err(ContractError::Unauthorized));
    assert_eq!(ledger, before);
}

#[test]
fn register_collection_starts_fresh() {
    let ledger = registered();
    assert_eq!(
        ledger.collections,
        vec![Collection {
            address: s("coll"),
            owner: s("coll_owner"),
            total_airdrop: 0,
            airdropable: 0,
            airdrop_infos: vec![],
            duration: 0,
            started_at: 0,
            fee_address: s("coll_owner"),
            cw20_address: s("reward"),
            is_started: false,
            is_enabled: true,
            is_show: true,
            unstaking_fee: 100,
            unstaking_fee_percent: 30,
            users: vec![],
        }]
    );
}

#[test]
fn register_two_collections_keeps_both() {
    let mut ledger = registered();
    execute_registe_collection(&mut ledger, s("owner"), s("other"), s("o2"), s(""), 1, 2).unwrap();
    assert_eq!(ledger.collections.len(), 2);
    assert_eq!(ledger.collections[0].address, "coll");
    assert_eq!(ledger.collections[1].address, "other");
    assert_eq!(ledger.collections[1].cw20_address, "");
}

#[test]
fn register_again_resets_the_collection() {
    let mut ledger = registered();
    ledger.collections[0].airdropable = 77;
    ledger.collections[0].total_airdrop = 5;
    ledger.collections[0].duration = 60;
    ledger.collections[0].is_started = true;
    execute_registe_collection(&mut ledger, s("owner"), s("coll"), s("new_owner"), s("token2"), 9, 8).unwrap();
    assert_eq!(ledger.collections.len(), 1);
    let c = &ledger.collections[0];
    assert_eq!(c.owner, "new_owner");
    assert_eq!(c.fee_address, "new_owner");
    assert_eq!(c.cw20_address, "token2");
    assert_eq!((c.airdropable, c.total_airdrop, c.duration, c.started_at), (0, 0, 0, 0));
    assert_eq!((c.unstaking_fee, c.unstaking_fee_percent), (9, 8));
    assert!(!c.is_started && c.is_enabled && c.is_show);
    assert!(c.users.is_empty());
}

#[test]
fn register_unauthorized() {
    let mut ledger = ledger();
    let r = execute_registe_collection(&mut ledger, s("coll_owner"), s("coll"), s("coll_owner"), s(""), 0, 0);
    assert_eq!(r, Err(ContractError::Unauthorized));
    assert!(ledger.collections.is_empty());
}

#[test]
fn update_collection_fee_sets_both_numbers() {
    let mut ledger = registered();
    execute_update_collection_fee(&mut ledger, s("owner"), s("coll"), 250, 45).unwrap();
    assert_eq!(ledger.collections[0].unstaking_fee, 250);
    assert_eq!(ledger.collections[0].unstaking_fee_percent, 45);
}

#[test]
fn update_collection_fee_is_for_the_owner_of_the_collection_or_the_ledger() {
    let mut ledger = registered();
    let r = execute_update_collection_fee(&mut ledger, s("coll_owner"), s("coll"), 250, 45);
    assert_eq!(r, Ok(Response { messages: vec![] }));
    assert_eq!((ledger.collections[0].unstaking_fee, ledger.collections[0].unstaking_fee_percent), (250, 45));
    let r = execute_update_collection_fee(&mut ledger, s("mallory"), s("coll"), 1, 1);
    assert_eq!(r, Err(ContractError::Unauthorized));
    assert_eq!((ledger.collections[0].unstaking_fee, ledger.collections[0].unstaking_fee_percent), (250, 45));
    // an unregistered collection has nobody to run it
    let r = execute_update_collection_fee(&mut ledger, s("mallory"), s("nowhere"), 1, 1);
    assert_eq!(r, Err(ContractError::InvalidCollection));
}

#[test]
fn update_of_unknown_collection_is_invalid() {
    let mut ledger = registered();
    let before = ledger.clone();
    assert_eq!(
        execute_update_collection_fee(&mut ledger, s("owner"), s("nowhere"), 1, 1),
        Err(ContractError::InvalidCollection)
    );
    assert_eq!(
        execute_update_collection_state(&mut ledger, s("owner"), s("nowhere"), false),
        Err(ContractError::InvalidCollection)
    );
    assert_eq!(
        execute_update_collection(&mut ledger, s("owner"), s("nowhere"), s(""), s("o"), 1, s("f"), true),
        Err(ContractError::InvalidCollection)
    );
    assert_eq!(ledger, before);
}

#[test]
fn update_collection_state_sets_visibility() {
    let mut ledger = registered();
    execute_update_collection_state(&mut ledger, s("owner"), s("coll"), false).unwrap();
    assert!(!ledger.collections[0].is_show);
    assert_eq!(
        execute_update_collection_state(&mut ledger, s("mallory"), s("coll"), true),
        Err(ContractError::Unauthorized)
    );
    assert!(!ledger.collections[0].is_show);
    // the collection's owner may set it as well
    assert_eq!(
        execute_update_collection_state(&mut ledger, s("coll_owner"), s("coll"), true),
        Ok(Response { messages: vec![] })
    );
    assert!(ledger.collections[0].is_show);
}

#[test]
fn update_collection_by_its_owner() {
    let mut ledger = registered();
    let r = execute_update_collection(
        &mut ledger,
        s("coll_owner"),
        s("coll"),
        s("token9"),
        s("heir"),
        86400,
        s("coll_fees"),
        false,
    );
    assert_eq!(r, Ok(Response { messages: vec![] }));
    let c = &ledger.collections[0];
    assert_eq!(c.owner, "heir");
    assert_eq!(c.cw20_address, "token9");
    assert_eq!(c.duration, 86400);
    assert_eq!(c.fee_address, "coll_fees");
    assert!(!c.is_enabled);
    // what the call does not name stays
    assert_eq!((c.unstaking_fee, c.unstaking_fee_percent), (100, 30));
    assert!(c.is_show);
}

#[test]
fn update_collection_by_the_ledger_owner_overrides() {
    let mut ledger = registered();
    let r = execute_update_collection(&mut ledger, s("owner"), s("coll"), s(""), s("x"), 5, s("y"), true);
    assert!(r.is_ok());
    assert_eq!(ledger.collections[0].owner, "x");
}

#[test]
fn update_collection_unauthorized() {
    let mut ledger = registered();
    let before = ledger.clone();
    let r = execute_update_collection(&mut ledger, s("mallory"), s("coll"), s(""), s("mallory"), 5, s("m"), true);
    assert_eq!(r, Err(ContractError::Unauthorized));
    assert_eq!(ledger, before);
}

#[test]
fn the_checks_tell_who_may_and_what_is_open() {
    let mut ledger = registered();
    assert!(check_owner(&ledger, s("owner")).is_ok());
    assert_eq!(check_owner(&ledger, s("coll_owner")), Err(ContractError::Unauthorized));
    assert!(check_enabled(&ledger, s("coll")).is_ok());
    assert_eq!(check_enabled(&ledger, s("nowhere")), Err(ContractError::InvalidCollection));
    assert_eq!(check_airdrop_start(&ledger, s("coll")), Err(ContractError::NotStarted));
    assert_eq!(check_airdrop_start(&ledger, s("nowhere")), Err(ContractError::InvalidCollection));
    assert!(check_collection_owner(&ledger, s("coll"), s("coll_owner")).is_ok());
    assert!(check_collection_owner(&ledger, s("coll"), s("owner")).is_ok());
    assert_eq!(check_collection_owner(&ledger, s("coll"), s("mallory")), Err(ContractError::Unauthorized));
    assert_eq!(check_collection_owner(&ledger, s("nowhere"), s("owner")), Err(ContractError::InvalidCollection));
    ledger.collections[0].is_enabled = false;
    ledger.collections[0].is_started = true;
    assert_eq!(check_enabled(&ledger, s("coll")), Err(ContractError::Disabled));
    assert!(check_airdrop_start(&ledger, s("coll")).is_ok());
}
