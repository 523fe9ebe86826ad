use nft_staking::contract::{
    execute_airdrop_restart, execute_receive_nft, execute_restake, execute_stake, execute_transfer_nft,
    execute_unstake, instantiate, try_execute, try_receive_nft,
};
use nft_staking::error::ContractError;
use nft_staking::fit::{receive_nft_fits, restake_fits, stake_fits, unstake_fits};
use nft_staking::host::{Coin, CosmosMsg, Env, MessageInfo, Response};
use nft_staking::msg::{Cw721ReceiveMsg, ExecuteMsg, InstantiateMsg, NftReceiveMsg};
use nft_staking::state::{Ledger, NftInfo, UserInfo};
use nft_staking::util::{execute_registe_collection, execute_update_collection};

fn s(text: &str) -> String {
    text.to_string()
}

fn ids(names: &[&str]) -> Vec<String> {
    names.iter().map(|n| n.to_string()).collect()
}

fn env(time: u64) -> Env {
    Env { time, contract_address: s("ledger") }
}

fn info(sender: &str) -> MessageInfo {
    MessageInfo { sender: s(sender), funds: vec![] }
}

fn paying(sender: &str, amount: u128) -> MessageInfo {
    MessageInfo { sender: s(sender), funds: vec![Coin { denom: s("inj"), amount }] }
}

fn transfer_nft(collection: &str, recipient: &str, token_id: &str) -> CosmosMsg {
    CosmosMsg::Execute {
        contract_addr: s(collection),
        msg: format!("{{\"transfer_nft\":{{\"recipient\":\"{}\",\"token_id\":\"{}\"}}}}", recipient, token_id)
            .into_bytes(),
    }
}

fn send(to: &str, amount: u128) -> CosmosMsg {
    CosmosMsg::Send { to_address: s(to), denom: s("inj"), amount }
}

/// A ledger with the flat fee 10 and one collection "coll" with an open
/// round, the given lock period and the given unstaking fee.
fn open_collection(duration: u64, unstaking_fee: u128, percent: u64) -> Ledger {
    let mut ledger = instantiate(
        env(1),
        info("anyone"),
        InstantiateMsg { owner: s("owner"), fee_address: s("protocol"), native_token: s("inj"), tx_fee: 10 },
    );
    execute_registe_collection(&mut ledger, s("owner"), s("coll"), s("coll_owner"), s("reward"), unstaking_fee, percent)
        .unwrap();
    execute_update_collection(
        &mut ledger,
        s("coll_owner"),
        s("coll"),
        s("reward"),
        s("coll_owner"),
        duration,
        s("coll_fees"),
        true,
    )
    .unwrap();
    execute_airdrop_restart(&mut ledger, env(1000), info("coll_owner"), s("coll")).unwrap();
    ledger
}

fn staked_ids(ledger: &Ledger, user: usize) -> Vec<String> {
    ledger.collections[0].users[user].staked_nfts.iter().map(|n| n.nft_id.clone()).collect()
}

#[test]
fn stake_locks_each_nft_and_instructs_its_transfer() {
    let mut ledger = open_collection(86400, 0, 0);
    let r = execute_stake(&mut ledger, env(2000), paying("alice", 10), s("coll"), ids(&["A", "B"]));
    assert_eq!(
        r,
        Ok(Response { messages: vec![transfer_nft("coll", "ledger", "A"), transfer_nft("coll", "ledger", "B")] })
    );
    assert_eq!(
        ledger.collections[0].users,
        vec![UserInfo {
            address: s("alice"),
            total_earnd: 0,
            claimable: 0,
            earn_infos: vec![],
            staked_nfts: vec![
                NftInfo { nft_id: s("A"), lock_time: 88400, airdrop: false, collection_address: s("coll") },
                NftInfo { nft_id: s("B"), lock_time: 88400, airdrop: false, collection_address: s("coll") },
            ],
        }]
    );
}

#[test]
fn stake_again_appends_to_the_same_user() {
    let mut ledger = open_collection(100, 0, 0);
    execute_stake(&mut ledger, env(2000), paying("alice", 10), s("coll"), ids(&["A"])).unwrap();
    execute_stake(&mut ledger, env(2000), paying("bob", 10), s("coll"), ids(&["X"])).unwrap();
    execute_stake(&mut ledger, env(3000), paying("alice", 10), s("coll"), ids(&["B", "C"])).unwrap();
    assert_eq!(ledger.collections[0].users.len(), 2);
    assert_eq!(staked_ids(&ledger, 0), ids(&["A", "B", "C"]));
    assert_eq!(staked_ids(&ledger, 1), ids(&["X"]));
    assert_eq!(ledger.collections[0].users[0].staked_nfts[0].lock_time, 2100);
    assert_eq!(ledger.collections[0].users[0].staked_nfts[2].lock_time, 3100);
}

#[test]
fn stake_of_many_costs_one_flat_fee() {
    let mut ledger = open_collection(100, 0, 0);
    let r = execute_stake(&mut ledger, env(2000), paying("alice", 10), s("coll"), ids(&["A", "B", "C", "D", "E"]));
    assert!(r.is_ok());
    assert_eq!(staked_ids(&ledger, 0).len(), 5);
}

#[test]
fn stake_of_nothing_adds_the_user_without_nfts() {
    let mut ledger = open_collection(100, 0, 0);
    let r = execute_stake(&mut ledger, env(2000), paying("alice", 10), s("coll"), vec![]);
    assert_eq!(r, Ok(Response { messages: vec![] }));
    assert_eq!(ledger.collections[0].users.len(), 1);
    assert!(ledger.collections[0].users[0].staked_nfts.is_empty());
}

#[test]
fn stake_needs_the_fee_in_one_native_coin() {
    let mut ledger = open_collection(100, 0, 0);
    let before = ledger.clone();
    let no_funds = info("alice");
    let too_little = paying("alice", 9);
    let zero = paying("alice", 0);
    let other = MessageInfo { sender: s("alice"), funds: vec![Coin { denom: s("atom"), amount: 10 }] };
    let two = MessageInfo {
        sender: s("alice"),
        funds: vec![Coin { denom: s("inj"), amount: 10 }, Coin { denom: s("atom"), amount: 1 }],
    };
    for funds in [no_funds, too_little, zero, other, two] {
        assert_eq!(
            execute_stake(&mut ledger, env(2000), funds, s("coll"), ids(&["A"])),
            Err(ContractError::InsufficientCw20)
        );
    }
    assert_eq!(ledger, before);
    // more than the fee is fine
    assert!(execute_stake(&mut ledger, env(2000), paying("alice", 11), s("coll"), ids(&["A"])).is_ok());
}

#[test]
fn without_a_flat_fee_no_coin_is_asked_for() {
    let mut ledger = open_collection(100, 0, 0);
    ledger.config.tx_fee = 0;
    let r = execute_stake(&mut ledger, env(2000), info("alice"), s("coll"), ids(&["A"]));
    assert_eq!(r, Ok(Response { messages: vec![transfer_nft("coll", "ledger", "A")] }));
    // whatever comes with the call is at least nothing
    let other = MessageInfo { sender: s("alice"), funds: vec![Coin { denom: s("atom"), amount: 3 }] };
    assert!(execute_stake(&mut ledger, env(2000), other, s("coll"), ids(&["B"])).is_ok());
    assert!(execute_stake(&mut ledger, env(2000), paying("alice", 0), s("coll"), ids(&["C"])).is_ok());
    assert_eq!(staked_ids(&ledger, 0), ids(&["A", "B", "C"]));
    let r = execute_restake(&mut ledger, env(3000), info("alice"), s("coll"), ids(&["A"]));
    assert_eq!(r, Ok(Response { messages: vec![] }));
    assert_eq!(ledger.collections[0].users[0].staked_nfts[0].lock_time, 3100);
    assert!(stake_fits(&ledger, &env(1), &info("alice"), &s("coll"), &ids(&["D"])));
    assert!(restake_fits(&ledger, &env(5000), &info("alice"), &s("coll"), &ids(&["A"])));
    ledger.collections[0].duration = u64::MAX;
    assert!(!stake_fits(&ledger, &env(1), &info("alice"), &s("coll"), &ids(&["D"])));
    assert!(!restake_fits(&ledger, &env(5000), &info("alice"), &s("coll"), &ids(&["A"])));
}

#[test]
fn stake_needs_an_enabled_collection_with_an_open_round() {
    let mut ledger = open_collection(100, 0, 0);
    assert_eq!(
        execute_stake(&mut ledger, env(2000), paying("alice", 10), s("nowhere"), ids(&["A"])),
        Err(ContractError::InvalidCollection)
    );
    ledger.collections[0].is_started = false;
    assert_eq!(
        execute_stake(&mut ledger, env(2000), paying("alice", 10), s("coll"), ids(&["A"])),
        Err(ContractError::NotStarted)
    );
    ledger.collections[0].is_enabled = false;
    assert_eq!(
        execute_stake(&mut ledger, env(2000), paying("alice", 10), s("coll"), ids(&["A"])),
        Err(ContractError::Disabled)
    );
    assert!(ledger.collections[0].users.is_empty());
}

#[test]
fn unstake_right_after_staking_is_free_without_a_fee() {
    // lock period of a day, no unstaking fee: the lock alone does not hold an NFT back
    let mut ledger = open_collection(86400, 0, 0);
    execute_stake(&mut ledger, env(5000), paying("user", 10), s("coll"), ids(&["A"])).unwrap();
    assert_eq!(ledger.collections[0].users[0].staked_nfts[0].lock_time, 5000 + 86400);
    let r = execute_unstake(&mut ledger, env(5001), info("user"), s("coll"), ids(&["A"]));
    assert_eq!(r, Ok(Response { messages: vec![transfer_nft("coll", "user", "A")] }));
    // the user stays, with nothing staked
    assert_eq!(ledger.collections[0].users.len(), 1);
    assert!(ledger.collections[0].users[0].staked_nfts.is_empty());
}

#[test]
fn unstake_early_with_a_fee_set_must_pay() {
    let mut ledger = open_collection(86400, 100, 30);
    execute_stake(&mut ledger, env(5000), paying("user", 10), s("coll"), ids(&["A"])).unwrap();
    let before = ledger.clone();
    assert_eq!(
        execute_unstake(&mut ledger, env(5001), info("user"), s("coll"), ids(&["A"])),
        Err(ContractError::Locktime)
    );
    assert_eq!(
        execute_unstake(&mut ledger, env(5001), paying("user", 99), s("coll"), ids(&["A"])),
        Err(ContractError::Locktime)
    );
    assert_eq!(ledger, before);
}

#[test]
fn unstake_early_splits_the_fee() {
    let mut ledger = open_collection(86400, 100, 30);
    execute_stake(&mut ledger, env(5000), paying("user", 10), s("coll"), ids(&["A", "B", "C"])).unwrap();
    // two NFTs early: the fee is 200, of which 30 hundredths go to the ledger
    let r = execute_unstake(&mut ledger, env(6000), paying("user", 200), s("coll"), ids(&["C", "A"]));
    assert_eq!(
        r,
        Ok(Response {
            messages: vec![
                transfer_nft("coll", "user", "C"),
                transfer_nft("coll", "user", "A"),
                send("protocol", 60),
                send("coll_fees", 140),
            ],
        })
    );
    assert_eq!(staked_ids(&ledger, 0), ids(&["B"]));
}

#[test]
fn unstake_fee_share_rounds_down() {
    let mut ledger = open_collection(86400, 7, 50);
    execute_stake(&mut ledger, env(5000), paying("user", 10), s("coll"), ids(&["A"])).unwrap();
    let r = execute_unstake(&mut ledger, env(6000), paying("user", 8), s("coll"), ids(&["A"])).unwrap();
    assert_eq!(r.messages[1..], [send("protocol", 3), send("coll_fees", 4)]);
}

#[test]
fn unstake_fee_without_a_ledger_share_is_one_payment() {
    let mut ledger = open_collection(86400, 50, 1);
    execute_stake(&mut ledger, env(5000), paying("user", 10), s("coll"), ids(&["A"])).unwrap();
    // 50 * 1 / 100 rounds down to nothing
    let r = execute_unstake(&mut ledger, env(6000), paying("user", 50), s("coll"), ids(&["A"])).unwrap();
    assert_eq!(r.messages, vec![transfer_nft("coll", "user", "A"), send("coll_fees", 50)]);
}

#[test]
fn unstake_fee_all_to_the_ledger_still_pays_the_collection_nothing() {
    let mut ledger = open_collection(86400, 50, 100);
    execute_stake(&mut ledger, env(5000), paying("user", 10), s("coll"), ids(&["A"])).unwrap();
    let r = execute_unstake(&mut ledger, env(6000), paying("user", 50), s("coll"), ids(&["A"])).unwrap();
    assert_eq!(r.messages[1..], [send("protocol", 50), send("coll_fees", 0)]);
}

#[test]
fn unstake_after_the_lock_needs_no_fee() {
    let mut ledger = open_collection(100, 100, 30);
    execute_stake(&mut ledger, env(5000), paying("user", 10), s("coll"), ids(&["A", "B"])).unwrap();
    // at the lock time itself the lock has run out
    let r = execute_unstake(&mut ledger, env(5100), info("user"), s("coll"), ids(&["A"]));
    assert_eq!(r, Ok(Response { messages: vec![transfer_nft("coll", "user", "A")] }));
    // one second earlier it has not
    assert_eq!(
        execute_unstake(&mut ledger, env(5099), info("user"), s("coll"), ids(&["B"])),
        Err(ContractError::Locktime)
    );
}

#[test]
fn unstake_charges_only_the_early_ones() {
    let mut ledger = open_collection(100, 100, 30);
    execute_stake(&mut ledger, env(5000), paying("user", 10), s("coll"), ids(&["old"])).unwrap();
    execute_stake(&mut ledger, env(5090), paying("user", 10), s("coll"), ids(&["new"])).unwrap();
    let r = execute_unstake(&mut ledger, env(5100), paying("user", 100), s("coll"), ids(&["old", "new"])).unwrap();
    assert_eq!(r.messages[2..], [send("protocol", 30), send("coll_fees", 70)]);
}

#[test]
fn unstake_of_an_nft_not_held_takes_nothing_out() {
    let mut ledger = open_collection(100, 0, 0);
    execute_stake(&mut ledger, env(5000), paying("user", 10), s("coll"), ids(&["A", "B"])).unwrap();
    let before = ledger.clone();
    assert_eq!(
        execute_unstake(&mut ledger, env(9000), info("user"), s("coll"), ids(&["A", "Z"])),
        Err(ContractError::NoStakedNft)
    );
    // an id cannot be taken out twice
    assert_eq!(
        execute_unstake(&mut ledger, env(9000), info("user"), s("coll"), ids(&["A", "A"])),
        Err(ContractError::NoStakedNft)
    );
    assert_eq!(ledger, before);
}

#[test]
fn unstake_by_somebody_without_nfts() {
    let mut ledger = open_collection(100, 0, 0);
    execute_stake(&mut ledger, env(5000), paying("user", 10), s("coll"), ids(&["A"])).unwrap();
    assert_eq!(
        execute_unstake(&mut ledger, env(9000), info("stranger"), s("coll"), ids(&["A"])),
        Err(ContractError::NoStakedNft)
    );
    assert_eq!(
        execute_unstake(&mut ledger, env(9000), info("user"), s("nowhere"), ids(&["A"])),
        Err(ContractError::InvalidCollection)
    );
    execute_unstake(&mut ledger, env(9000), info("user"), s("coll"), ids(&["A"])).unwrap();
    // the user is still known but holds nothing: even an empty batch is refused
    assert_eq!(
        execute_unstake(&mut ledger, env(9000), info("user"), s("coll"), vec![]),
        Err(ContractError::NoStakedNft)
    );
}

#[test]
fn unstake_of_an_nft_of_another_collection_is_refused() {
    let mut ledger = open_collection(100, 0, 0);
    execute_stake(&mut ledger, env(5000), paying("user", 10), s("coll"), ids(&["A"])).unwrap();
    ledger.collections[0].users[0].staked_nfts.push(NftInfo {
        nft_id: s("stray"),
        lock_time: 0,
        airdrop: false,
        collection_address: s("elsewhere"),
    });
    let before = ledger.clone();
    assert_eq!(
        execute_unstake(&mut ledger, env(9000), info("user"), s("coll"), ids(&["A", "stray"])),
        Err(ContractError::InvalidCw721Token)
    );
    assert_eq!(
        execute_restake(&mut ledger, env(9000), paying("user", 10), s("coll"), ids(&["stray"])),
        Err(ContractError::InvalidCw721Msg)
    );
    assert_eq!(ledger, before);
}

#[test]
fn stake_and_unstake_leave_the_net_of_the_ids() {
    let mut ledger = open_collection(0, 0, 0);
    execute_stake(&mut ledger, env(1), paying("user", 10), s("coll"), ids(&["A", "B"])).unwrap();
    execute_stake(&mut ledger, env(2), paying("user", 10), s("coll"), ids(&["C"])).unwrap();
    execute_unstake(&mut ledger, env(3), info("user"), s("coll"), ids(&["B"])).unwrap();
    execute_stake(&mut ledger, env(4), paying("user", 10), s("coll"), ids(&["B", "D"])).unwrap();
    execute_unstake(&mut ledger, env(5), info("user"), s("coll"), ids(&["D", "A"])).unwrap();
    let mut left = staked_ids(&ledger, 0);
    left.sort();
    assert_eq!(left, ids(&["B", "C"]));
    // an id that is staked twice is held twice, and taken out once at a time
    execute_stake(&mut ledger, env(6), paying("user", 10), s("coll"), ids(&["C"])).unwrap();
    execute_unstake(&mut ledger, env(7), info("user"), s("coll"), ids(&["C"])).unwrap();
    let mut left = staked_ids(&ledger, 0);
    left.sort();
    assert_eq!(left, ids(&["B", "C"]));
}

#[test]
fn restake_renews_only_what_has_run_out() {
    let mut ledger = open_collection(100, 0, 0);
    execute_stake(&mut ledger, env(5000), paying("user", 10), s("coll"), ids(&["old"])).unwrap();
    execute_stake(&mut ledger, env(5090), paying("user", 10), s("coll"), ids(&["new", "idle"])).unwrap();
    ledger.collections[0].users[0].staked_nfts[0].airdrop = true;
    ledger.collections[0].users[0].staked_nfts[1].airdrop = true;
    let r = execute_restake(&mut ledger, env(5100), paying("user", 10), s("coll"), ids(&["new", "old"]));
    assert_eq!(r, Ok(Response { messages: vec![] }));
    assert_eq!(
        ledger.collections[0].users[0].staked_nfts,
        vec![
            // its lock had run out: locked anew, flag cleared
            NftInfo { nft_id: s("old"), lock_time: 5200, airdrop: false, collection_address: s("coll") },
            // still locked: lock time and flag as they were
            NftInfo { nft_id: s("new"), lock_time: 5190, airdrop: true, collection_address: s("coll") },
            // not named
            NftInfo { nft_id: s("idle"), lock_time: 5190, airdrop: false, collection_address: s("coll") },
        ]
    );
}

#[test]
fn restake_has_the_checks_of_staking() {
    let mut ledger = open_collection(100, 0, 0);
    execute_stake(&mut ledger, env(5000), paying("user", 10), s("coll"), ids(&["A"])).unwrap();
    let before = ledger.clone();
    assert_eq!(
        execute_restake(&mut ledger, env(9000), paying("user", 9), s("coll"), ids(&["A"])),
        Err(ContractError::InsufficientCw20)
    );
    assert_eq!(
        execute_restake(&mut ledger, env(9000), paying("user", 10), s("coll"), ids(&["A", "Z"])),
        Err(ContractError::NoStakedNft)
    );
    assert_eq!(
        execute_restake(&mut ledger, env(9000), paying("stranger", 10), s("coll"), ids(&["A"])),
        Err(ContractError::NoStakedNft)
    );
    assert_eq!(
        execute_restake(&mut ledger, env(9000), paying("user", 10), s("nowhere"), ids(&["A"])),
        Err(ContractError::InvalidCollection)
    );
    assert_eq!(ledger, before);
    ledger.collections[0].is_started = false;
    assert_eq!(
        execute_restake(&mut ledger, env(9000), paying("user", 10), s("coll"), ids(&["A"])),
        Err(ContractError::NotStarted)
    );
    ledger.collections[0].is_enabled = false;
    assert_eq!(
        execute_restake(&mut ledger, env(9000), paying("user", 10), s("coll"), ids(&["A"])),
        Err(ContractError::Disabled)
    );
}

fn notice(sender: &str, token_id: &str, says_sender: &str, says_token: &str, collection: &str) -> Cw721ReceiveMsg {
    Cw721ReceiveMsg {
        sender: s(sender),
        token_id: s(token_id),
        msg: NftReceiveMsg::Stake { sender: s(says_sender), token_id: s(says_token), collection_address: s(collection) },
    }
}

#[test]
fn received_nft_is_staked_for_its_sender() {
    let mut ledger = open_collection(100, 0, 0);
    let r = execute_receive_nft(&mut ledger, env(5000), info("coll"), notice("alice", "A", "alice", "A", "coll"));
    assert_eq!(r, Ok(Response { messages: vec![] }));
    let r = execute_receive_nft(&mut ledger, env(5001), info("coll"), notice("alice", "B", "alice", "B", "coll"));
    assert!(r.is_ok());
    assert_eq!(
        ledger.collections[0].users,
        vec![UserInfo {
            address: s("alice"),
            total_earnd: 0,
            claimable: 0,
            earn_infos: vec![],
            staked_nfts: vec![
                NftInfo { nft_id: s("A"), lock_time: 5100, airdrop: false, collection_address: s("coll") },
                NftInfo { nft_id: s("B"), lock_time: 5101, airdrop: false, collection_address: s("coll") },
            ],
        }]
    );
}

#[test]
fn received_nft_must_match_its_notice() {
    let mut ledger = open_collection(100, 0, 0);
    execute_registe_collection(&mut ledger, s("owner"), s("other"), s("o"), s(""), 0, 0).unwrap();
    execute_airdrop_restart(&mut ledger, env(1000), info("owner"), s("other")).unwrap();
    let before = ledger.clone();
    assert_eq!(
        execute_receive_nft(&mut ledger, env(5000), info("stranger"), notice("alice", "A", "alice", "A", "coll")),
        Err(ContractError::InvalidCollection)
    );
    assert_eq!(
        execute_receive_nft(&mut ledger, env(5000), info("coll"), notice("alice", "A", "alice", "A", "nowhere")),
        Err(ContractError::InvalidCollection)
    );
    assert_eq!(
        execute_receive_nft(&mut ledger, env(5000), info("other"), notice("alice", "A", "alice", "A", "coll")),
        Err(ContractError::InvalidCw721Token)
    );
    assert_eq!(
        execute_receive_nft(&mut ledger, env(5000), info("coll"), notice("alice", "A", "bob", "A", "coll")),
        Err(ContractError::InvalidCw721Msg)
    );
    assert_eq!(
        execute_receive_nft(&mut ledger, env(5000), info("coll"), notice("alice", "A", "alice", "B", "coll")),
        Err(ContractError::InvalidCw721Msg)
    );
    assert_eq!(ledger, before);
    ledger.collections[0].is_started = false;
    assert_eq!(
        execute_receive_nft(&mut ledger, env(5000), info("coll"), notice("alice", "A", "alice", "A", "coll")),
        Err(ContractError::NotStarted)
    );
    ledger.collections[0].is_enabled = false;
    assert_eq!(
        execute_receive_nft(&mut ledger, env(5000), info("coll"), notice("alice", "A", "alice", "A", "coll")),
        Err(ContractError::Disabled)
    );
}

#[test]
fn transfer_nft_is_for_administrators() {
    let mut ledger = open_collection(100, 0, 0);
    let before = ledger.clone();
    let r = execute_transfer_nft(&mut ledger, env(1), info("owner"), s("coll"), s("A"), s("rescuer"));
    assert_eq!(r, Ok(Response { messages: vec![transfer_nft("coll", "rescuer", "A")] }));
    let r = execute_transfer_nft(&mut ledger, env(1), info("coll_owner"), s("coll"), s("A"), s("rescuer"));
    assert_eq!(r, Err(ContractError::Unauthorized));
    assert_eq!(ledger, before);
}

#[test]
fn lock_time_beyond_the_machine_is_found_out() {
    let mut ledger = open_collection(u64::MAX, 0, 0);
    let before = ledger.clone();
    assert!(!stake_fits(&ledger, &env(1), &paying("user", 10), &s("coll"), &ids(&["A"])));
    assert!(stake_fits(&ledger, &env(0), &paying("user", 10), &s("coll"), &ids(&["A"])));
    // a call that fails anyway, or stakes nothing, adds nothing
    assert!(stake_fits(&ledger, &env(1), &paying("user", 9), &s("coll"), &ids(&["A"])));
    assert!(stake_fits(&ledger, &env(1), &paying("user", 10), &s("coll"), &vec![]));
    let msg = ExecuteMsg::Staking { collection_address: s("coll"), token_id: ids(&["A"]) };
    assert_eq!(try_execute(&mut ledger, env(1), paying("user", 10), msg.clone(), 0), None);
    assert_eq!(ledger, before);
    let r = try_execute(&mut ledger, env(0), paying("user", 10), msg, 0);
    assert_eq!(r, Some(Ok(Response { messages: vec![transfer_nft("coll", "ledger", "A")] })));
    assert_eq!(ledger.collections[0].users[0].staked_nfts[0].lock_time, u64::MAX);

    assert!(!receive_nft_fits(&ledger, &env(1), &info("coll"), &notice("a", "A", "a", "A", "coll")));
    assert_eq!(try_receive_nft(&mut ledger, env(1), info("coll"), notice("a", "A", "a", "A", "coll")), None);
    assert!(try_receive_nft(&mut ledger, env(0), info("coll"), notice("a", "A", "a", "A", "coll")).is_some());
}

#[test]
fn restake_beyond_the_machine_is_found_out() {
    let mut ledger = open_collection(10, 0, 0);
    execute_stake(&mut ledger, env(5), paying("user", 10), s("coll"), ids(&["A", "B"])).unwrap();
    ledger.collections[0].users[0].staked_nfts[1].lock_time = u64::MAX;
    ledger.collections[0].duration = u64::MAX;
    // "B" is still locked and stays as it is: nothing is added
    assert!(restake_fits(&ledger, &env(20), &paying("user", 10), &s("coll"), &ids(&["B"])));
    // "A" would be locked anew, beyond the last second
    assert!(!restake_fits(&ledger, &env(20), &paying("user", 10), &s("coll"), &ids(&["B", "A"])));
    // unless the call fails anyway
    assert!(restake_fits(&ledger, &env(20), &paying("user", 10), &s("coll"), &ids(&["A", "Z"])));
    let before = ledger.clone();
    let msg = ExecuteMsg::Restake { collection_address: s("coll"), token_id: ids(&["A"]) };
    assert_eq!(try_execute(&mut ledger, env(20), paying("user", 10), msg, 0), None);
    assert_eq!(ledger, before);
}

#[test]
fn fee_share_beyond_the_fee_is_found_out() {
    // a share of more than a hundred hundredths leaves the collection less than nothing
    let mut ledger = open_collection(100, 10, 150);
    execute_stake(&mut ledger, env(5), paying("user", 10), s("coll"), ids(&["A"])).unwrap();
    assert!(!unstake_fits(&ledger, &env(6), &paying("user", 10), &s("coll"), &ids(&["A"])));
    // after the lock no fee is due, and when the fee is not paid the call fails anyway
    assert!(unstake_fits(&ledger, &env(200), &info("user"), &s("coll"), &ids(&["A"])));
    assert!(unstake_fits(&ledger, &env(6), &paying("user", 9), &s("coll"), &ids(&["A"])));
    let before = ledger.clone();
    let msg = ExecuteMsg::Unstake { collection_address: s("coll"), token_id: ids(&["A"]) };
    assert_eq!(try_execute(&mut ledger, env(6), paying("user", 10), msg, 0), None);
    assert_eq!(ledger, before);
    // a fee that no payment can cover is simply not covered
    ledger.collections[0].unstaking_fee = u128::MAX;
    ledger.collections[0].unstaking_fee_percent = 50;
    execute_stake(&mut ledger, env(5), paying("user", 10), s("coll"), ids(&["B"])).unwrap();
    assert_eq!(
        execute_unstake(&mut ledger, env(6), paying("user", u128::MAX), s("coll"), ids(&["A", "B"])),
        Err(ContractError::Locktime)
    );
}
