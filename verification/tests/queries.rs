use nft_staking::contract::{
    balance_read, execute, execute_airdrop_restart, execute_stake, execute_unstake, instantiate, query, query_airdrop_infos,
    query_collection, query_collection_list, query_config, query_earn_infos, query_shown_collection_list,
    query_staked_nfts, query_total_locked, query_user_list,
};
use nft_staking::error::ContractError;
use nft_staking::host::{Coin, Denom, Env, MessageInfo, Response};
use nft_staking::msg::{
    AirdropInfosResponse, CollectionListResponse, CollectionResponse, ConfigResponse, EarnInfosResponse, ExecuteMsg,
    InstantiateMsg, QueryMsg, QueryResponse, StakedNftResponse, StakedNftsResponse, TotalLockedResponse,
    UserListResponse,
};
use nft_staking::state::{AirdropInfo, EarnInfo, Ledger, NftInfo};
use nft_staking::util::{
    execute_registe_collection, execute_update_collection, execute_update_collection_state, get_all_addresses,
    get_all_collections, get_all_shown_collections, get_in_locktime_nft_count,
};

fn w(text: &str) -> String {
    text.to_string()
}

fn list(names: &[&str]) -> Vec<String> {
    names.iter().map(|n| n.to_string()).collect()
}

fn when(time: u64) -> Env {
    Env { time, contract_address: w("ledger") }
}

fn by(sender: &str) -> MessageInfo {
    MessageInfo { sender: w(sender), funds: vec![] }
}

fn fee(sender: &str) -> MessageInfo {
    MessageInfo { sender: w(sender), funds: vec![Coin { denom: w("inj"), amount: 10 }] }
}

fn world() -> Ledger {
    let mut ledger = instantiate(
        when(1),
        by("anyone"),
        InstantiateMsg { owner: w("owner"), fee_address: w("protocol"), native_token: w("inj"), tx_fee: 10 },
    );
    for (address, owner) in [("coll", "coll_owner"), ("hidden", "h_owner"), ("third", "t_owner")] {
        execute_registe_collection(&mut ledger, w("owner"), w(address), w(owner), w("reward"), 3, 4).unwrap();
        execute_update_collection(&mut ledger, w("owner"), w(address), w("reward"), w(owner), 100, w("f"), true)
            .unwrap();
        execute_airdrop_restart(&mut ledger, when(1000), by("owner"), w(address)).unwrap();
    }
    execute_update_collection_state(&mut ledger, w("owner"), w("hidden"), false).unwrap();
    execute_stake(&mut ledger, when(1000), fee("alice"), w("coll"), list(&["a_old"])).unwrap();
    execute_stake(&mut ledger, when(1100), fee("alice"), w("coll"), list(&["a1"])).unwrap();
    execute_stake(&mut ledger, when(1100), fee("bob"), w("coll"), list(&["b1", "b2"])).unwrap();
    execute_stake(&mut ledger, when(1100), fee("carol"), w("coll"), list(&["c1"])).unwrap();
    execute_unstake(&mut ledger, when(1300), by("carol"), w("coll"), list(&["c1"])).unwrap();
    ledger
}

#[test]
fn config_query_shows_owner_fee_address_and_fee() {
    let ledger = world();
    assert_eq!(
        query_config(&ledger),
        Ok(ConfigResponse { owner: w("owner"), fee_address: w("protocol"), tx_fee: 10 })
    );
}

#[test]
fn collection_query_echoes_the_time() {
    let ledger = world();
    assert_eq!(
        query_collection(&ledger, when(4242), w("coll")),
        Ok(CollectionResponse {
            address: w("coll"),
            owner: w("coll_owner"),
            total_airdrop: 0,
            airdropable: 0,
            duration: 100,
            started_at: 1000,
            fee_address: w("f"),
            cw20_address: w("reward"),
            is_started: true,
            is_show: true,
            is_enabled: true,
            unstaking_fee: 3,
            unstaking_fee_percent: 4,
            server_time: 4242,
        })
    );
    assert_eq!(query_collection(&ledger, when(1), w("nowhere")), Err(ContractError::InvalidCollection));
}

#[test]
fn collection_lists_all_and_shown() {
    let ledger = world();
    assert_eq!(get_all_collections(&ledger), list(&["coll", "hidden", "third"]));
    assert_eq!(get_all_shown_collections(&ledger), list(&["coll", "third"]));
    assert_eq!(
        query_collection_list(&ledger),
        Ok(CollectionListResponse { collections: list(&["coll", "hidden", "third"]) })
    );
    assert_eq!(
        query_shown_collection_list(&ledger),
        Ok(CollectionListResponse { collections: list(&["coll", "third"]) })
    );
}

#[test]
fn user_list_names_those_who_hold_an_nft() {
    let ledger = world();
    assert_eq!(get_all_addresses(&ledger, w("coll")), Ok(list(&["alice", "bob", "carol"])));
    assert_eq!(get_all_addresses(&ledger, w("nowhere")), Err(ContractError::InvalidCollection));
    // carol has unstaked everything
    assert_eq!(query_user_list(&ledger, when(1), w("coll")), Ok(UserListResponse { addresses: list(&["alice", "bob"]) }));
    assert_eq!(query_user_list(&ledger, when(1), w("third")), Ok(UserListResponse { addresses: vec![] }));
    assert_eq!(query_user_list(&ledger, when(1), w("nowhere")), Ok(UserListResponse { addresses: vec![] }));
}

#[test]
fn total_locked_counts_the_locks_that_have_yet_to_run_out() {
    let ledger = world();
    assert_eq!(get_in_locktime_nft_count(&ledger, 1099, w("coll")), Ok(4));
    assert_eq!(get_in_locktime_nft_count(&ledger, 1100, w("coll")), Ok(3));
    assert_eq!(get_in_locktime_nft_count(&ledger, 1199, w("coll")), Ok(3));
    assert_eq!(get_in_locktime_nft_count(&ledger, 1200, w("coll")), Ok(0));
    assert_eq!(get_in_locktime_nft_count(&ledger, 1, w("nowhere")), Err(ContractError::InvalidCollection));
    assert_eq!(query_total_locked(&ledger, when(1150), w("coll")), Ok(TotalLockedResponse { count: 3 }));
    assert_eq!(query_total_locked(&ledger, when(1150), w("third")), Ok(TotalLockedResponse { count: 0 }));
    assert_eq!(query_total_locked(&ledger, when(1150), w("nowhere")), Ok(TotalLockedResponse { count: 0 }));
}

#[test]
fn locked_count_leaves_out_nfts_of_other_collections() {
    let mut ledger = world();
    ledger.collections[0].users[1].staked_nfts.push(NftInfo {
        nft_id: w("stray"),
        lock_time: 9999,
        airdrop: false,
        collection_address: w("elsewhere"),
    });
    assert_eq!(get_in_locktime_nft_count(&ledger, 1150, w("coll")), Ok(3));
    assert_eq!(
        query_staked_nfts(&ledger, w("bob"), w("coll")),
        Ok(StakedNftsResponse {
            nft_maps: vec![
                StakedNftResponse { nft_id: w("b1"), airdrop: false, lock_time: 1200 },
                StakedNftResponse { nft_id: w("b2"), airdrop: false, lock_time: 1200 },
            ],
        })
    );
}

#[test]
fn staked_nfts_of_a_user() {
    let ledger = world();
    assert_eq!(
        query_staked_nfts(&ledger, w("alice"), w("coll")),
        Ok(StakedNftsResponse {
            nft_maps: vec![
                StakedNftResponse { nft_id: w("a_old"), airdrop: false, lock_time: 1100 },
                StakedNftResponse { nft_id: w("a1"), airdrop: false, lock_time: 1200 },
            ],
        })
    );
    assert_eq!(query_staked_nfts(&ledger, w("carol"), w("coll")), Ok(StakedNftsResponse { nft_maps: vec![] }));
    assert_eq!(query_staked_nfts(&ledger, w("stranger"), w("coll")), Ok(StakedNftsResponse { nft_maps: vec![] }));
    assert_eq!(query_staked_nfts(&ledger, w("alice"), w("nowhere")), Err(ContractError::InvalidCollection));
}

#[test]
fn earnings_of_a_user() {
    let mut ledger = world();
    ledger.collections[0].users[0].total_earnd = 11;
    ledger.collections[0].users[0].claimable = 22;
    ledger.collections[0].users[0].earn_infos =
        vec![EarnInfo { cw20_address: w("reward"), total_earned: 33, claimable: 44 }];
    assert_eq!(
        query_earn_infos(&ledger, w("alice"), w("coll")),
        Ok(EarnInfosResponse {
            total_earned: 11,
            claimable: 22,
            earn_infos: vec![EarnInfo { cw20_address: w("reward"), total_earned: 33, claimable: 44 }],
        })
    );
    assert_eq!(
        query_earn_infos(&ledger, w("stranger"), w("coll")),
        Ok(EarnInfosResponse { total_earned: 0, claimable: 0, earn_infos: vec![] })
    );
    assert_eq!(query_earn_infos(&ledger, w("alice"), w("nowhere")), Err(ContractError::InvalidCollection));
}

#[test]
fn pools_of_a_collection() {
    let mut ledger = world();
    ledger.collections[0].total_airdrop = 5;
    ledger.collections[0].airdropable = 6;
    ledger.collections[0].airdrop_infos =
        vec![AirdropInfo { cw20_address: w("reward"), total_airdrop: 7, airdropable: 8 }];
    assert_eq!(
        query_airdrop_infos(&ledger, w("coll")),
        Ok(AirdropInfosResponse {
            total_airdrop: 5,
            airdropable: 6,
            airdrop_infos: vec![AirdropInfo { cw20_address: w("reward"), total_airdrop: 7, airdropable: 8 }],
        })
    );
    assert_eq!(
        query_airdrop_infos(&ledger, w("nowhere")),
        Ok(AirdropInfosResponse { total_airdrop: 0, airdropable: 0, airdrop_infos: vec![] })
    );
}

#[test]
fn query_answers_by_kind() {
    let ledger = world();
    assert_eq!(
        query(&ledger, when(1), QueryMsg::GetConfig {}),
        Ok(QueryResponse::Config(ConfigResponse { owner: w("owner"), fee_address: w("protocol"), tx_fee: 10 }))
    );
    assert_eq!(
        query(&ledger, when(1), QueryMsg::GetShownCollectionList {}),
        Ok(QueryResponse::CollectionList(CollectionListResponse { collections: list(&["coll", "third"]) }))
    );
    assert_eq!(
        query(&ledger, when(1), QueryMsg::GetCollectionList {}),
        Ok(QueryResponse::CollectionList(CollectionListResponse { collections: list(&["coll", "hidden", "third"]) }))
    );
    assert_eq!(
        query(&ledger, when(1150), QueryMsg::GetTotalLocked { collection_address: w("coll") }),
        Ok(QueryResponse::TotalLocked(TotalLockedResponse { count: 3 }))
    );
    assert_eq!(
        query(&ledger, when(1), QueryMsg::GetUserList { collection_address: w("coll") }),
        Ok(QueryResponse::UserList(UserListResponse { addresses: list(&["alice", "bob"]) }))
    );
    assert_eq!(
        query(&ledger, when(1), QueryMsg::GetStakedNfts { address: w("carol"), collection_address: w("coll") }),
        Ok(QueryResponse::StakedNfts(StakedNftsResponse { nft_maps: vec![] }))
    );
    assert_eq!(
        query(&ledger, when(1), QueryMsg::GetEarnInfos { address: w("carol"), collection_address: w("coll") }),
        Ok(QueryResponse::EarnInfos(EarnInfosResponse { total_earned: 0, claimable: 0, earn_infos: vec![] }))
    );
    assert_eq!(
        query(&ledger, when(1), QueryMsg::GetAirdropInfos { address: w("coll") }),
        Ok(QueryResponse::AirdropInfos(AirdropInfosResponse { total_airdrop: 0, airdropable: 0, airdrop_infos: vec![] }))
    );
    assert_eq!(
        query(&ledger, when(1), QueryMsg::GetCollection { collection_address: w("nowhere") }),
        Err(ContractError::InvalidCollection)
    );
    assert!(matches!(
        query(&ledger, when(7), QueryMsg::GetCollection { collection_address: w("third") }),
        Ok(QueryResponse::Collection(CollectionResponse { server_time: 7, .. }))
    ));
}

#[test]
fn balance_read_names_the_currency_and_the_holder() {
    let mut ledger = world();
    let ask = |ledger: &Ledger, msg: ExecuteMsg| balance_read(ledger, &when(1), &by("caller"), &msg);
    assert_eq!(ask(&ledger, ExecuteMsg::Withdraw { amount: 1 }), Some((Denom::Native(w("inj")), w("ledger"))));
    assert_eq!(
        ask(&ledger, ExecuteMsg::Claim { collection_address: w("coll"), cw20_address: w("") }),
        Some((Denom::Native(w("inj")), w("ledger")))
    );
    assert_eq!(
        ask(&ledger, ExecuteMsg::Claim { collection_address: w("coll"), cw20_address: w("tok") }),
        Some((Denom::Cw20(w("tok")), w("ledger")))
    );
    assert_eq!(
        ask(&ledger, ExecuteMsg::WithdrawAirdrop { collection_address: w("coll"), cw20_address: w("tok"), amount: 1 }),
        Some((Denom::Cw20(w("tok")), w("ledger")))
    );
    assert_eq!(
        ask(&ledger, ExecuteMsg::WithdrawAirdrop { collection_address: w("coll"), cw20_address: w(""), amount: 1 }),
        Some((Denom::Native(w("inj")), w("ledger")))
    );
    // a charge pulls the collection's reward token from the caller
    assert_eq!(
        ask(&ledger, ExecuteMsg::ChargeToken { collection_address: w("coll"), charge_amount: 1 }),
        Some((Denom::Cw20(w("reward")), w("caller")))
    );
    assert_eq!(ask(&ledger, ExecuteMsg::ChargeToken { collection_address: w("nowhere"), charge_amount: 1 }), None);
    ledger.collections[0].cw20_address = w("");
    assert_eq!(ask(&ledger, ExecuteMsg::ChargeToken { collection_address: w("coll"), charge_amount: 1 }), None);
    assert_eq!(ask(&ledger, ExecuteMsg::Charge { collection_address: w("coll") }), None);
    assert_eq!(ask(&ledger, ExecuteMsg::Staking { collection_address: w("coll"), token_id: vec![] }), None);
    assert_eq!(ask(&ledger, ExecuteMsg::UpdateTxFee { tx_fee: 1 }), None);
}

#[test]
fn execute_does_what_the_call_of_its_kind_does() {
    let mut ledger = world();
    let r = execute(&mut ledger, when(1), by("owner"), ExecuteMsg::UpdateTxFee { tx_fee: 99 }, 0);
    assert_eq!(r, Ok(Response { messages: vec![] }));
    assert_eq!(ledger.config.tx_fee, 99);
    let r = execute(&mut ledger, when(1), by("alice"), ExecuteMsg::UpdateOwner { owner: w("alice") }, 0);
    assert_eq!(r, Err(ContractError::Unauthorized));
    let r = execute(&mut ledger, when(1), by("owner"), ExecuteMsg::UpdateFeeAddress { fee_address: w("v") }, 0);
    assert!(r.is_ok());
    assert_eq!(ledger.config.fee_address, "v");
    let register = ExecuteMsg::RegisteCollection {
        collection_address: w("fourth"),
        owner: w("o4"),
        new_unstaking_fee: 1,
        new_unstaking_fee_percent: 2,
        cw20_address: w(""),
    };
    execute(&mut ledger, when(1), by("owner"), register, 0).unwrap();
    assert_eq!(get_all_collections(&ledger), list(&["coll", "hidden", "third", "fourth"]));
    let fee_msg =
        ExecuteMsg::UpdateCollectionFee { collection_address: w("fourth"), new_unstaking_fee: 8, new_unstaking_fee_percent: 9 };
    execute(&mut ledger, when(1), by("owner"), fee_msg, 0).unwrap();
    assert_eq!((ledger.collections[3].unstaking_fee, ledger.collections[3].unstaking_fee_percent), (8, 9));
    execute(
        &mut ledger,
        when(1),
        by("owner"),
        ExecuteMsg::UpdateCollectionState { collection_address: w("fourth"), is_show: false },
        0,
    )
    .unwrap();
    assert!(!ledger.collections[3].is_show);
    let terms = ExecuteMsg::UpdateCollection {
        collection_address: w("fourth"),
        new_cw20_address: w("tok"),
        new_owner: w("o5"),
        new_duration: 60,
        new_fee_address: w("ff"),
        is_enabled: true,
    };
    execute(&mut ledger, when(1), by("o4"), terms, 0).unwrap();
    assert_eq!(ledger.collections[3].owner, "o5");
    execute(&mut ledger, when(50), by("o5"), ExecuteMsg::AirdropRestart { collection_address: w("fourth") }, 0)
        .unwrap();
    assert_eq!(ledger.collections[3].started_at, 50);
    // the balance is read by the calls that pay out
    let r = execute(&mut ledger, when(1), by("owner"), ExecuteMsg::Withdraw { amount: 5 }, 4);
    assert_eq!(r, Err(ContractError::InsufficientCw20));
    let r = execute(&mut ledger, when(1), by("owner"), ExecuteMsg::Withdraw { amount: 5 }, 5);
    assert_eq!(r.unwrap().messages.len(), 1);
    let charge = MessageInfo { sender: w("x"), funds: vec![Coin { denom: w("inj"), amount: 70 }] };
    execute(&mut ledger, when(1), charge, ExecuteMsg::Charge { collection_address: w("coll") }, 0).unwrap();
    assert_eq!(ledger.collections[0].airdropable, 70);
    execute(
        &mut ledger,
        when(1),
        by("d"),
        ExecuteMsg::ChargeToken { collection_address: w("coll"), charge_amount: 30 },
        30,
    )
    .unwrap();
    assert_eq!(ledger.collections[0].airdrop_infos[0].airdropable, 30);
    let back = ExecuteMsg::WithdrawAirdrop { collection_address: w("coll"), cw20_address: w(""), amount: 10 };
    execute(&mut ledger, when(1), by("coll_owner"), back, 70).unwrap();
    assert_eq!(ledger.collections[0].airdropable, 60);
    let drop = ExecuteMsg::Airdrop { collection_address: w("coll"), cw20_address: w(""), airdrop_amount: 30 };
    execute(&mut ledger, when(1150), by("coll_owner"), drop, 0).unwrap();
    assert_eq!(ledger.collections[0].users[1].claimable, 20);
    let claim = ExecuteMsg::Claim { collection_address: w("coll"), cw20_address: w("") };
    assert_eq!(execute(&mut ledger, when(1150), by("bob"), claim.clone(), 19), Err(ContractError::InsufficientCw20));
    assert!(execute(&mut ledger, when(1150), by("bob"), claim, 20).is_ok());
    assert_eq!(ledger.collections[0].users[1].total_earnd, 20);
    execute(&mut ledger, when(1151), by("owner"), ExecuteMsg::AirdropRestart { collection_address: w("coll") }, 0)
        .unwrap();
    let mut paid = fee("bob");
    paid.funds[0].amount = 99;
    let stake = ExecuteMsg::Staking { collection_address: w("coll"), token_id: list(&["b3"]) };
    execute(&mut ledger, when(1152), paid.clone(), stake, 0).unwrap();
    let restake = ExecuteMsg::Restake { collection_address: w("coll"), token_id: list(&["b1"]) };
    execute(&mut ledger, when(1300), paid.clone(), restake, 0).unwrap();
    assert_eq!(ledger.collections[0].users[1].staked_nfts[0].lock_time, 1400);
    let unstake = ExecuteMsg::Unstake { collection_address: w("coll"), token_id: list(&["b2", "b3"]) };
    let r = execute(&mut ledger, when(1300), by("bob"), unstake, 0).unwrap();
    assert_eq!(r.messages.len(), 2);
    let rescue = ExecuteMsg::TransferNft { collection_address: w("coll"), nft_id: w("b9"), recipient: w("bob") };
    assert_eq!(execute(&mut ledger, when(1), by("owner"), rescue, 0).unwrap().messages.len(), 1);
}
