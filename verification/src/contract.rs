//! The calls that the ledger accepts.
use vstd::prelude::*;
use crate::answers::{
    airdrop_infos_answer, all_collections, answers, collection_answer, config_answer, earn_infos_answer,
    shown_collections, shown_nft, shown_nfts, staked_nfts_answer, stakes_in, total_locked_answer,
    user_list_answer,
};
use crate::batch::{
    lemma_restake_failure_stays, lemma_restake_keeps_ids, lemma_restake_renewal_stays, restake_check,
    unstake_scan,
};
use crate::error::ContractError;
use crate::host::{
    CosmosMsg, CosmosMsgView, Denom, DenomView, Env, EnvView, MessageInfo, MessageInfoView, Response,
};
use crate::lookup::find_record;
use crate::model::{
    Transition, meets, put_collection, registe_collection_model, representable, unchanged,
    update_collection_fee_model, update_collection_model, update_collection_state_model,
    update_fee_address_model, update_owner_model, update_tx_fee_model,
};
use crate::msg::{
    AirdropInfosResponse, CollectionListResponse, CollectionResponse, ConfigResponse, Cw721ReceiveMsg,
    EarnInfosResponse, ExecuteMsg, InstantiateMsg, NftReceiveMsg, QueryMsg, QueryResponse,
    StakedNftResponse, StakedNftsResponse, TotalLockedResponse, UserListResponse,
};
use crate::rewards::{
    airdrop_collection, airdrop_model, airdrop_restart_model, airdrop_to_user, airdrop_to_users,
    charge_model, charge_pool, charge_token_model, claim_model, credit, denom_of, mark_locked, pay_out,
    transfer_nft_model, withdraw_airdrop_model, withdraw_model, withdraw_pool,
};
use crate::staking::{
    Unstaking, add_nfts, collection_fee, fee_msgs, new_nfts, new_user, owner_fee, receive_nft_model,
    restake_model, restake_nfts, stake_model, transfer_nft_msgs, unstake_model,
};
use crate::state::{
    AirdropInfo, CollectionView, Config, ConfigView, EarnInfo, Ledger, LedgerView, NftInfo, NftInfoView,
    UserInfo, UserInfoView, views,
};
use crate::util::{
    check_airdrop_start, check_collection_owner, check_enabled, check_owner, count_locked,
    execute_registe_collection, execute_update_collection, execute_update_collection_fee,
    execute_update_collection_state, execute_update_fee_address, execute_update_owner,
    execute_update_tx_fee, get_all_collections, get_all_shown_collections, transfer_from_token_message,
    transfer_nft_message, transfer_token_message,
};
use crate::wire::must_pay;

verus! {

/// Marks the locked NFTs of `user` as counted and credits the user with
/// `per_nft` of `token` for each of them.
fn airdrop_user(user: &mut UserInfo, token: &String, per_nft: u128, now: u64, collection: &String)
    requires
        airdrop_to_user(old(user)@, token@, per_nft as nat, now as nat, collection@).fits(),
    ensures
        final(user)@ == airdrop_to_user(old(user)@, token@, per_nft as nat, now as nat, collection@),
{
    let count = crate::util::count_locked_nfts(&user.staked_nfts, now, collection);
    if count == 0 {
        return ;
    }
    let ghost before = user@;
    let ghost marked = UserInfoView { staked_nfts: mark_locked(before.staked_nfts, now as nat, collection@), ..before };
    let n = user.staked_nfts.len();
    let mut k: usize = 0;
    while k < n
        invariant
            k <= n,
            n == user.staked_nfts.len(),
            n == before.staked_nfts.len(),
            user@.address == before.address,
            user@.total_earnd == before.total_earnd,
            user@.claimable == before.claimable,
            user@.earn_infos == before.earn_infos,
            forall|i: int|
                0 <= i < k ==> (#[trigger] user.staked_nfts@[i])@ == mark_locked(
                    before.staked_nfts,
                    now as nat,
                    collection@,
                )[i],
            forall|i: int| k <= i < n ==> (#[trigger] user.staked_nfts@[i])@ == before.staked_nfts[i],
        decreases n - k,
    {
        if user.staked_nfts[k].lock_time > now && user.staked_nfts[k].collection_address == *collection {
            user.staked_nfts[k].airdrop = true;
        }
        k += 1;
    }
    assert(user@ =~~= marked);
    let ghost wanted = credit(marked, token@, (per_nft * count) as nat);
    assert(wanted == airdrop_to_user(before, token@, per_nft as nat, now as nat, collection@));
    if token.as_str().is_empty() {
        assert(wanted.claimable == before.claimable + per_nft * count);
        let amount = per_nft * (count as u128);
        user.claimable = user.claimable + amount;
        assert(user@ =~~= wanted);
    } else {
        match find_record(&user.earn_infos, token) {
            Some(e) => {
                assert(wanted.earn_infos[e as int].fits());
                let amount = per_nft * (count as u128);
                user.earn_infos[e].claimable = user.earn_infos[e].claimable + amount;
                assert(user@ =~~= wanted);
            },
            None => {
                assert(wanted.earn_infos[before.earn_infos.len() as int].fits());
                let amount = per_nft * (count as u128);
                user.earn_infos.push(EarnInfo { cw20_address: token.clone(), total_earned: 0, claimable: amount });
                assert(user@ =~~= wanted);
            },
        }
    }
}

/// Shares `airdrop_amount` of the token `cw20_address`, or of the native
/// currency where that is empty, among the NFTs that are locked in the
/// collection at the time of the call, and closes the airdrop round.
///
/// Each locked NFT brings its holder `airdrop_amount / locked`, rounded
/// down. The pool gives up all of `airdrop_amount`: what the division leaves
/// over is credited to nobody.
pub fn execute_airdrop(
    storage: &mut Ledger,
    env: Env,
    info: MessageInfo,
    collection_address: String,
    cw20_address: String,
    airdrop_amount: u128,
) -> (r: Result<Response, ContractError>)
    requires
        representable(
            airdrop_model(
                old(storage)@,
                env@,
                info@,
                collection_address@,
                cw20_address@,
                airdrop_amount as nat,
            ),
        ),
    ensures
        meets(
            airdrop_model(old(storage)@, env@, info@, collection_address@, cw20_address@, airdrop_amount as nat),
            old(storage)@,
            final(storage)@,
            r,
        ),
{
    check_enabled(storage, collection_address.clone())?;
    check_collection_owner(storage, collection_address.clone(), info.sender.clone())?;
    let i = match find_record(&storage.collections, &collection_address) {
        None => { return Err(ContractError::InvalidCollection); },
        Some(i) => i,
    };
    if airdrop_amount == 0 {
        return Err(ContractError::InvalidAirdrop);
    }
    let native = cw20_address.as_str().is_empty();
    let pool = if native {
        None
    } else {
        find_record(&storage.collections[i].airdrop_infos, &cw20_address)
    };
    if native {
        if airdrop_amount > storage.collections[i].airdropable {
            return Err(ContractError::InsufficientCw20);
        }
    } else {
        match pool {
            Some(p) => {
                if storage.collections[i].airdrop_infos[p].airdropable < airdrop_amount {
                    return Err(ContractError::InsufficientCw20);
                }
            },
            None => {
                return Err(ContractError::InsufficientCw20);
            },
        }
    }
    let nft_count = count_locked(&storage.collections[i], env.time);
    if nft_count == 0 {
        return Err(ContractError::NoUnexpiredNft);
    }
    if airdrop_amount < nft_count {
        return Err(ContractError::OverNftCount { nft_count });
    }
    let airdrop = airdrop_amount / nft_count;
    let ghost before = old(storage)@.collections[i as int];
    let ghost after = airdrop_collection(before, cw20_address@, airdrop_amount as nat, env.time as nat);
    let ghost wanted = airdrop_to_users(before.users, cw20_address@, airdrop as nat, env.time as nat, before.address);
    proof {
        assert(after.users == wanted);
        assert(crate::model::put_collection(old(storage)@, i as int, after).collections[i as int].fits());
        assert(forall|j: int| 0 <= j < wanted.len() ==> (#[trigger] wanted[j]).fits());
    }
    let n = storage.collections[i].users.len();
    let mut j: usize = 0;
    while j < n
        invariant
            j <= n,
            i < storage.collections.len(),
            n == storage.collections[i as int].users.len(),
            n == before.users.len(),
            before.address == collection_address@,
            wanted == airdrop_to_users(before.users, cw20_address@, airdrop as nat, env.time as nat, before.address),
            forall|m: int| 0 <= m < wanted.len() ==> (#[trigger] wanted[m]).fits(),
            storage.config == old(storage).config,
            storage.collections@.len() == old(storage).collections@.len(),
            forall|m: int|
                0 <= m < storage.collections@.len() && m != i ==> (#[trigger] storage.collections@[m])
                    == old(storage).collections@[m],
            storage.collections@[i as int]@ == (crate::state::CollectionView {
                users: storage.collections@[i as int]@.users,
                ..before
            }),
            forall|m: int| 0 <= m < j ==> (#[trigger] storage.collections@[i as int].users@[m])@ == wanted[m],
            forall|m: int|
                j <= m < n ==> (#[trigger] storage.collections@[i as int].users@[m])@ == before.users[m],
        decreases n - j,
    {
        assert(storage.collections@[i as int].users@[j as int]@ == before.users[j as int]);
        assert(wanted[j as int].fits());
        airdrop_user(&mut storage.collections[i].users[j], &cw20_address, airdrop, env.time, &collection_address);
        j += 1;
    }
    if native {
        storage.collections[i].total_airdrop = storage.collections[i].total_airdrop + airdrop_amount;
        storage.collections[i].airdropable = storage.collections[i].airdropable - airdrop_amount;
    } else {
        match pool {
            Some(p) => {
                assert(after.airdrop_infos[p as int].fits());
                storage.collections[i].airdrop_infos[p].total_airdrop =
                    storage.collections[i].airdrop_infos[p].total_airdrop + airdrop_amount;
                storage.collections[i].airdrop_infos[p].airdropable =
                    storage.collections[i].airdrop_infos[p].airdropable - airdrop_amount;
            },
            None => {},
        }
    }
    storage.collections[i].is_started = false;
    assert(storage@.collections[i as int] =~~= after);
    assert(storage@ =~~= crate::model::put_collection(old(storage)@, i as int, after));
    Ok(Response::new())
}

/// Puts `nfts` under the name of `who` in the collection at the place
/// `i`: behind the NFTs that `who` holds there, or with `who` as a new
/// participant.
fn add_staked(storage: &mut Ledger, i: usize, who: String, nfts: Vec<NftInfo>)
    requires
        i < old(storage).collections.len(),
    ensures
        final(storage)@ == put_collection(
            old(storage)@,
            i as int,
            CollectionView {
                users: add_nfts(old(storage)@.collections[i as int].users, who@, views(nfts@)),
                ..old(storage)@.collections[i as int]
            },
        ),
{
    let ghost before = storage@.collections[i as int];
    let ghost added = views(nfts@);
    let mut nfts = nfts;
    match find_record(&storage.collections[i].users, &who) {
        Some(j) => {
            storage.collections[i].users[j].staked_nfts.append(&mut nfts);
            assert(storage@.collections[i as int].users[j as int] =~~= (UserInfoView {
                staked_nfts: before.users[j as int].staked_nfts + added,
                ..before.users[j as int]
            }));
            assert(storage@.collections[i as int].users =~~= add_nfts(before.users, who@, added));
        },
        None => {
            let user = UserInfo {
                address: who,
                total_earnd: 0,
                claimable: 0,
                earn_infos: Vec::new(),
                staked_nfts: nfts,
            };
            assert(user@ =~~= new_user(who@, added));
            storage.collections[i].users.push(user);
            assert(storage@.collections[i as int].users =~~= add_nfts(before.users, who@, added));
        },
    }
    assert(storage@.collections[i as int] =~~= (CollectionView {
        users: add_nfts(before.users, who@, added),
        ..before
    }));
    assert(storage@ =~~= put_collection(
        old(storage)@,
        i as int,
        CollectionView { users: add_nfts(before.users, who@, added), ..before },
    ));
}

/// Stakes the NFTs `token_id` for the caller in the collection.
///
/// The collection has to be enabled, with an airdrop round open, and the
/// call has to pay the flat fee, if there is one, once for all the NFTs.
/// Each NFT is locked for the collection's lock period from the time of the
/// call, and for each the response instructs its transfer to the ledger.
pub fn execute_stake(
    storage: &mut Ledger,
    env: Env,
    info: MessageInfo,
    collection_address: String,
    token_id: Vec<String>,
) -> (r: Result<Response, ContractError>)
    requires
        representable(stake_model(old(storage)@, env@, info@, collection_address@, views(token_id@))),
    ensures
        meets(
            stake_model(old(storage)@, env@, info@, collection_address@, views(token_id@)),
            old(storage)@,
            final(storage)@,
            r,
        ),
{
    check_enabled(storage, collection_address.clone())?;
    check_airdrop_start(storage, collection_address.clone())?;
    let i = match find_record(&storage.collections, &collection_address) {
        None => { return Err(ContractError::InvalidCollection); },
        Some(i) => i,
    };
    if storage.config.tx_fee > 0 {
        let fee_amount = match must_pay(&info, &storage.config.native_token) {
            Ok(it) => it,
            Err(_err) => { return Err(ContractError::InsufficientCw20); },
        };
        if fee_amount < storage.config.tx_fee {
            return Err(ContractError::InsufficientCw20);
        }
    }
    let ghost before = storage@.collections[i as int];
    let ghost ids = views(token_id@);
    let ghost want_nfts = new_nfts(ids, before.duration + env@.time, before.address);
    let ghost want_msgs = transfer_nft_msgs(before.address, ids, env@.contract_address);
    let ghost next = put_collection(
        storage@,
        i as int,
        CollectionView { users: add_nfts(before.users, info@.sender, want_nfts), ..before },
    );
    let ghost want = stake_model(storage@, env@, info@, collection_address@, ids);
    assert(want == Ok::<_, ContractError>((next, want_msgs)));
    let lock_time = if token_id.len() > 0 {
        proof {
            assert(next.collections[i as int].fits());
            crate::fit::lemma_ledger_fits(*storage);
            crate::fit::lemma_add_nfts_fits(before, info@.sender, want_nfts);
            assert(want_nfts[0].fits());
        }
        storage.collections[i].duration + env.time
    } else {
        0
    };
    let mut msgs: Vec<CosmosMsg> = Vec::new();
    let mut nftinfos: Vec<NftInfo> = Vec::new();
    let mut k: usize = 0;
    while k < token_id.len()
        invariant
            k <= token_id.len(),
            i < storage.collections.len(),
            storage == old(storage),
            before == storage@.collections[i as int],
            before.address == collection_address@,
            ids == views(token_id@),
            want == Ok::<_, ContractError>((next, want_msgs)),
            want == stake_model(old(storage)@, env@, info@, collection_address@, ids),
            want_nfts == new_nfts(ids, before.duration + env@.time, before.address),
            want_msgs == transfer_nft_msgs(before.address, ids, env@.contract_address),
            token_id.len() > 0 ==> lock_time == before.duration + env@.time,
            msgs@.len() == k,
            nftinfos@.len() == k,
            forall|m: int| 0 <= m < k ==> (#[trigger] msgs@[m])@ == want_msgs[m],
            forall|m: int| 0 <= m < k ==> (#[trigger] nftinfos@[m])@ == want_nfts[m],
        decreases token_id.len() - k,
    {
        let msg = match transfer_nft_message(
            collection_address.clone(),
            token_id[k].clone(),
            env.contract_address.clone(),
        ) {
            Ok(msg) => msg,
            Err(e) => {
                assert(!want_msgs[k as int].encodes());
                return Err(e);
            },
        };
        msgs.push(msg);
        nftinfos.push(
            NftInfo {
                nft_id: token_id[k].clone(),
                lock_time,
                airdrop: false,
                collection_address: storage.collections[i].address.clone(),
            },
        );
        k += 1;
    }
    assert(views(nftinfos@) =~~= want_nfts);
    assert(views(msgs@) =~~= want_msgs);
    add_staked(storage, i, info.sender, nftinfos);
    Ok(Response { messages: msgs })
}

/// Stakes an NFT that its contract has sent to the ledger.
///
/// The caller is the NFT contract, which has to be the enabled collection
/// that the notice names, with an airdrop round open; the notice has to name
/// the sender and the NFT of its envelope. The NFT is locked for the
/// collection's lock period under the name of its sender.
pub fn execute_receive_nft(storage: &mut Ledger, env: Env, info: MessageInfo, wrapper: Cw721ReceiveMsg) -> (r: Result<
    Response,
    ContractError,
>)
    requires
        representable(receive_nft_model(old(storage)@, env@, info@, wrapper@)),
    ensures
        meets(receive_nft_model(old(storage)@, env@, info@, wrapper@), old(storage)@, final(storage)@, r),
{
    check_enabled(storage, info.sender.clone())?;
    let Cw721ReceiveMsg { sender: user_addr, token_id: stake_nft_id, msg } = wrapper;
    match msg {
        NftReceiveMsg::Stake { sender, token_id, collection_address } => {
            check_airdrop_start(storage, collection_address.clone())?;
            let i = match find_record(&storage.collections, &collection_address) {
                None => { return Err(ContractError::InvalidCollection); },
                Some(i) => i,
            };
            if info.sender != collection_address {
                return Err(ContractError::InvalidCw721Token);
            }
            if sender != user_addr || token_id != stake_nft_id {
                return Err(ContractError::InvalidCw721Msg);
            }
            let ghost before = storage@.collections[i as int];
            let ghost want_nfts = new_nfts(seq![stake_nft_id@], before.duration + env@.time, before.address);
            let ghost next = put_collection(
                storage@,
                i as int,
                CollectionView { users: add_nfts(before.users, user_addr@, want_nfts), ..before },
            );
            proof {
                assert(next.collections[i as int].fits());
                crate::fit::lemma_ledger_fits(*storage);
                crate::fit::lemma_add_nfts_fits(before, user_addr@, want_nfts);
                assert(want_nfts[0].fits());
            }
            let nftinfo = NftInfo {
                nft_id: stake_nft_id,
                lock_time: storage.collections[i].duration + env.time,
                airdrop: false,
                collection_address: storage.collections[i].address.clone(),
            };
            let mut nftinfos: Vec<NftInfo> = Vec::new();
            nftinfos.push(nftinfo);
            assert(views(nftinfos@) =~~= want_nfts);
            add_staked(storage, i, user_addr, nftinfos);
            Ok(Response::new())
        },
    }
}

/// The payments that split the unstaking fee `total_fee` of the
/// collection, appended to `msgs`.
fn push_fee_messages(
    msgs: &mut Vec<CosmosMsg>,
    total_fee: u128,
    percent: u64,
    native_token: &String,
    owner_address: &String,
    collection_address: &String,
)
    requires
        total_fee > 0,
        0 <= collection_fee(total_fee as nat, percent as nat),
    ensures
        final(msgs)@.len() == old(msgs)@.len() + if owner_fee(total_fee as nat, percent as nat) > 0 {
            2int
        } else {
            1int
        },
        forall|m: int| 0 <= m < old(msgs)@.len() ==> final(msgs)@[m] == old(msgs)@[m],
        owner_fee(total_fee as nat, percent as nat) > 0 ==> final(msgs)@[old(msgs)@.len() as int]@ == (
        CosmosMsgView::Send {
            to_address: owner_address@,
            denom: native_token@,
            amount: owner_fee(total_fee as nat, percent as nat) as int,
        }),
        final(msgs)@[final(msgs)@.len() - 1]@ == (CosmosMsgView::Send {
            to_address: collection_address@,
            denom: native_token@,
            amount: collection_fee(total_fee as nat, percent as nat),
        }),
{
    proof {
        crate::staking::lemma_owner_fee_parts(total_fee as nat, percent as nat);
    }
    let hundreds = total_fee / 100;
    let rest = total_fee % 100;
    assert(hundreds * percent <= total_fee) by (nonlinear_arith)
        requires
            hundreds * percent + (rest * percent) / 100 <= total_fee,
            0 <= rest,
            0 <= percent,
    ;
    assert(rest * percent <= 100 * 0xffff_ffff_ffff_ffff) by (nonlinear_arith)
        requires
            0 <= rest < 100,
            0 <= percent <= 0xffff_ffff_ffff_ffff,
    ;
    let owner_fee = hundreds * (percent as u128) + (rest * (percent as u128)) / 100;
    if owner_fee > 0 {
        msgs.push(
            CosmosMsg::Send { to_address: owner_address.clone(), denom: native_token.clone(), amount: owner_fee },
        );
    }
    msgs.push(
        CosmosMsg::Send {
            to_address: collection_address.clone(),
            denom: native_token.clone(),
            amount: total_fee - owner_fee,
        },
    );
}

/// The currency that `token` stands for: the native one where `token` is
/// empty, else the token itself.
fn denom_for(native_token: &String, token: &String) -> (denom: Denom)
    ensures
        denom@ == denom_of(native_token@, token@),
{
    if token.as_str().is_empty() {
        Denom::Native(native_token.clone())
    } else {
        Denom::Cw20(token.clone())
    }
}

/// A response with the one instruction `msg`.
fn respond_with(msg: CosmosMsg) -> (r: Response)
    ensures
        r@ == seq![msg@],
{
    let mut messages: Vec<CosmosMsg> = Vec::new();
    messages.push(msg);
    let r = Response { messages };
    assert(r@ =~~= seq![msg@]);
    r
}

/// Pays what came with the call into the collection's native pool.
///
/// The call has to come with exactly one payment, in the native currency.
pub fn execute_charge(storage: &mut Ledger, info: MessageInfo, collection_address: String) -> (r: Result<
    Response,
    ContractError,
>)
    requires
        representable(charge_model(old(storage)@, info@, collection_address@)),
    ensures
        meets(charge_model(old(storage)@, info@, collection_address@), old(storage)@, final(storage)@, r),
{
    let i = match find_record(&storage.collections, &collection_address) {
        None => { return Err(ContractError::InvalidCollection); },
        Some(i) => i,
    };
    let receive_amount = match must_pay(&info, &storage.config.native_token) {
        Ok(it) => it,
        Err(_err) => { return Err(ContractError::InsufficientCw20); },
    };
    let ghost before = storage@.collections[i as int];
    let ghost after = charge_pool(before, Seq::empty(), receive_amount as nat);
    proof {
        assert(put_collection(storage@, i as int, after).collections[i as int].fits());
    }
    storage.collections[i].airdropable = storage.collections[i].airdropable + receive_amount;
    assert(storage@.collections[i as int] =~~= after);
    assert(storage@ =~~= put_collection(old(storage)@, i as int, after));
    Ok(Response::new())
}

/// Pulls `charge_amount` of the collection's reward token from the caller
/// into the pool of that token.
///
/// `balance` is what the caller holds of the token. The response instructs
/// the token's contract to move the amount from the caller to the ledger.
pub fn execute_charge_token(
    storage: &mut Ledger,
    env: Env,
    info: MessageInfo,
    collection_address: String,
    charge_amount: u128,
    balance: u128,
) -> (r: Result<Response, ContractError>)
    requires
        representable(
            charge_token_model(
                old(storage)@,
                env@,
                info@,
                collection_address@,
                charge_amount as nat,
                balance as nat,
            ),
        ),
    ensures
        meets(
            charge_token_model(
                old(storage)@,
                env@,
                info@,
                collection_address@,
                charge_amount as nat,
                balance as nat,
            ),
            old(storage)@,
            final(storage)@,
            r,
        ),
{
    let i = match find_record(&storage.collections, &collection_address) {
        None => { return Err(ContractError::InvalidCollection); },
        Some(i) => i,
    };
    if storage.collections[i].cw20_address.as_str().is_empty() {
        return Err(ContractError::InvalidCw20Token);
    }
    if balance < charge_amount {
        return Err(ContractError::InsufficientCw20);
    }
    let ghost before = storage@.collections[i as int];
    let ghost after = charge_pool(before, before.cw20_address, charge_amount as nat);
    let msg = match transfer_from_token_message(
        Denom::Cw20(storage.collections[i].cw20_address.clone()),
        info.sender,
        env.contract_address,
        charge_amount,
    ) {
        Ok(msg) => msg,
        Err(e) => {
            assert(!seq![
                crate::rewards::transfer_from_token_msg(
                    before.cw20_address,
                    info@.sender,
                    env@.contract_address,
                    charge_amount as nat,
                ),
            ][0].encodes());
            return Err(e);
        },
    };
    let token = storage.collections[i].cw20_address.clone();
    proof {
        assert(put_collection(storage@, i as int, after).collections[i as int].fits());
    }
    match find_record(&storage.collections[i].airdrop_infos, &token) {
        Some(p) => {
            assert(after.airdrop_infos[p as int].fits());
            storage.collections[i].airdrop_infos[p].airdropable = storage.collections[i].airdrop_infos[p].airdropable
                + charge_amount;
        },
        None => {
            storage.collections[i].airdrop_infos.push(
                AirdropInfo { cw20_address: token, total_airdrop: 0, airdropable: charge_amount },
            );
        },
    }
    assert(storage@.collections[i as int] =~~= after);
    assert(storage@ =~~= put_collection(old(storage)@, i as int, after));
    Ok(respond_with(msg))
}

/// Pays `amount` of the native currency out of the ledger to the caller,
/// who has to be an administrator.
///
/// `balance` is what the ledger holds of the native currency.
pub fn execute_withdraw(storage: &mut Ledger, _env: Env, info: MessageInfo, amount: u128, balance: u128) -> (r: Result<
    Response,
    ContractError,
>)
    ensures
        meets(
            withdraw_model(old(storage)@, info@, amount as nat, balance as nat),
            old(storage)@,
            final(storage)@,
            r,
        ),
{
    check_owner(storage, info.sender.clone())?;
    if balance < amount {
        return Err(ContractError::InsufficientCw20);
    }
    match transfer_token_message(Denom::Native(storage.config.native_token.clone()), amount, info.sender) {
        Ok(msg) => Ok(respond_with(msg)),
        Err(e) => Err(e),
    }
}

/// Pays `amount` out of a pool of the collection back to the caller, who
/// has to be the collection's owner or the ledger's.
///
/// The pool is that of the token `cw20_address`, or the native one where
/// that is empty; `balance` is what the ledger holds of that currency.
pub fn execute_withdraw_airdrop(
    storage: &mut Ledger,
    _env: Env,
    info: MessageInfo,
    collection_address: String,
    cw20_address: String,
    amount: u128,
    balance: u128,
) -> (r: Result<Response, ContractError>)
    ensures
        meets(
            withdraw_airdrop_model(
                old(storage)@,
                info@,
                collection_address@,
                cw20_address@,
                amount as nat,
                balance as nat,
            ),
            old(storage)@,
            final(storage)@,
            r,
        ),
{
    check_collection_owner(storage, collection_address.clone(), info.sender.clone())?;
    let i = match find_record(&storage.collections, &collection_address) {
        None => { return Err(ContractError::InvalidCollection); },
        Some(i) => i,
    };
    let native = cw20_address.as_str().is_empty();
    let pool = if native {
        None
    } else {
        find_record(&storage.collections[i].airdrop_infos, &cw20_address)
    };
    if native {
        if amount > storage.collections[i].airdropable {
            return Err(ContractError::InsufficientCw20);
        }
    } else {
        match pool {
            Some(p) => {
                if storage.collections[i].airdrop_infos[p].airdropable < amount {
                    return Err(ContractError::InsufficientCw20);
                }
            },
            None => {
                return Err(ContractError::InsufficientCw20);
            },
        }
    }
    if balance < amount {
        return Err(ContractError::InsufficientCw20);
    }
    let ghost before = storage@.collections[i as int];
    let ghost after = withdraw_pool(before, cw20_address@, amount as nat);
    let msg = match transfer_token_message(
        denom_for(&storage.config.native_token, &cw20_address),
        amount,
        info.sender,
    ) {
        Ok(msg) => msg,
        Err(e) => {
            assert(!seq![
                crate::rewards::transfer_token_msg(
                    denom_of(storage@.config.native_token, cw20_address@),
                    amount as int,
                    info@.sender,
                ),
            ][0].encodes());
            return Err(e);
        },
    };
    if native {
        storage.collections[i].airdropable = storage.collections[i].airdropable - amount;
    } else {
        match pool {
            Some(p) => {
                storage.collections[i].airdrop_infos[p].airdropable = storage.collections[i].airdrop_infos[p].airdropable
                    - amount;
            },
            None => {},
        }
    }
    assert(storage@.collections[i as int] =~~= after);
    assert(storage@ =~~= put_collection(old(storage)@, i as int, after));
    Ok(respond_with(msg))
}

/// Opens an airdrop round for the collection at the time of the call.
///
/// The collection has to be enabled and the caller its owner or the
/// ledger's. On a collection whose round is open already, the call only
/// moves the round's start to the time of the call.
pub fn execute_airdrop_restart(storage: &mut Ledger, env: Env, info: MessageInfo, collection_address: String) -> (r: Result<
    Response,
    ContractError,
>)
    ensures
        meets(
            airdrop_restart_model(old(storage)@, env@, info@, collection_address@),
            old(storage)@,
            final(storage)@,
            r,
        ),
{
    check_enabled(storage, collection_address.clone())?;
    check_collection_owner(storage, collection_address.clone(), info.sender.clone())?;
    let i = match find_record(&storage.collections, &collection_address) {
        None => { return Err(ContractError::InvalidCollection); },
        Some(i) => i,
    };
    storage.collections[i].started_at = env.time;
    storage.collections[i].is_started = true;
    assert(storage@.collections =~~= old(storage)@.collections.update(i as int, storage@.collections[i as int]));
    Ok(Response::new())
}

/// Hands an NFT that the ledger holds to `recipient`, past the records of
/// who staked what. Only an administrator may do so.
pub fn execute_transfer_nft(
    storage: &mut Ledger,
    _env: Env,
    info: MessageInfo,
    collection_address: String,
    nft_id: String,
    recipient: String,
) -> (r: Result<Response, ContractError>)
    ensures
        meets(
            transfer_nft_model(old(storage)@, info@, collection_address@, nft_id@, recipient@),
            old(storage)@,
            final(storage)@,
            r,
        ),
{
    check_owner(storage, info.sender.clone())?;
    match transfer_nft_message(collection_address, nft_id, recipient) {
        Ok(msg) => Ok(respond_with(msg)),
        Err(e) => {
            assert(!seq![crate::rewards::transfer_nft_msg(collection_address@, nft_id@, recipient@)][0].encodes());
            Err(e)
        },
    }
}

/// Pays out everything the caller can claim in the collection in the
/// token `cw20_address`, or in the native currency where that is empty.
///
/// The caller has to be a participant of the collection, with or without
/// NFTs still staked there, and something has to be claimable. `balance` is
/// what the ledger holds of the currency: it has to cover the claim. What is
/// paid out is added to what the caller has earned, and nothing is left to
/// claim.
pub fn execute_claim(
    storage: &mut Ledger,
    _env: Env,
    info: MessageInfo,
    collection_address: String,
    cw20_address: String,
    balance: u128,
) -> (r: Result<Response, ContractError>)
    requires
        representable(claim_model(old(storage)@, info@, collection_address@, cw20_address@, balance as nat)),
    ensures
        meets(
            claim_model(old(storage)@, info@, collection_address@, cw20_address@, balance as nat),
            old(storage)@,
            final(storage)@,
            r,
        ),
{
    let i = match find_record(&storage.collections, &collection_address) {
        None => { return Err(ContractError::InvalidCollection); },
        Some(i) => i,
    };
    let j = match find_record(&storage.collections[i].users, &info.sender) {
        None => { return Err(ContractError::NoStakedNft); },
        Some(j) => j,
    };
    let native = cw20_address.as_str().is_empty();
    let entry = if native {
        None
    } else {
        find_record(&storage.collections[i].users[j].earn_infos, &cw20_address)
    };
    let amount = if native {
        storage.collections[i].users[j].claimable
    } else {
        match entry {
            Some(e) => storage.collections[i].users[j].earn_infos[e].claimable,
            None => 0,
        }
    };
    if amount == 0 {
        return Err(ContractError::NoReward);
    }
    if balance < amount {
        return Err(ContractError::InsufficientCw20);
    }
    let ghost before = storage@.collections[i as int];
    let ghost paid = pay_out(before.users[j as int], cw20_address@);
    let ghost after = CollectionView { users: before.users.update(j as int, paid), ..before };
    let reward_msg = match transfer_token_message(
        denom_for(&storage.config.native_token, &cw20_address),
        amount,
        info.sender,
    ) {
        Ok(msg) => msg,
        Err(e) => {
            assert(!seq![
                crate::rewards::transfer_token_msg(
                    denom_of(storage@.config.native_token, cw20_address@),
                    amount as int,
                    info@.sender,
                ),
            ][0].encodes());
            return Err(e);
        },
    };
    proof {
        assert(put_collection(storage@, i as int, after).collections[i as int].fits());
        assert(after.users[j as int].fits());
    }
    if native {
        storage.collections[i].users[j].total_earnd = storage.collections[i].users[j].total_earnd + amount;
        storage.collections[i].users[j].claimable = 0;
    } else {
        match entry {
            Some(e) => {
                assert(paid.earn_infos[e as int].fits());
                storage.collections[i].users[j].earn_infos[e].total_earned =
                    storage.collections[i].users[j].earn_infos[e].total_earned + amount;
                storage.collections[i].users[j].earn_infos[e].claimable = 0;
            },
            None => {},
        }
    }
    assert(storage@.collections[i as int].users[j as int] =~~= paid);
    assert(storage@.collections[i as int] =~~= after);
    assert(storage@ =~~= put_collection(old(storage)@, i as int, after));
    Ok(respond_with(reward_msg))
}

/// The settings of the ledger.
pub fn query_config(storage: &Ledger) -> (r: Result<ConfigResponse, ContractError>)
    ensures
        answers(r, Ok(config_answer(storage@))),
{
    Ok(
        ConfigResponse {
            owner: storage.config.owner.clone(),
            fee_address: storage.config.fee_address.clone(),
            tx_fee: storage.config.tx_fee,
        },
    )
}

/// The terms and the native pool of a collection, with the time of the
/// query.
pub fn query_collection(storage: &Ledger, env: Env, collection_address: String) -> (r: Result<
    CollectionResponse,
    ContractError,
>)
    ensures
        answers(r, collection_answer(storage@, env@, collection_address@)),
{
    let i = match find_record(&storage.collections, &collection_address) {
        None => { return Err(ContractError::InvalidCollection); },
        Some(i) => i,
    };
    let collection = &storage.collections[i];
    Ok(
        CollectionResponse {
            address: collection.address.clone(),
            owner: collection.owner.clone(),
            total_airdrop: collection.total_airdrop,
            airdropable: collection.airdropable,
            duration: collection.duration,
            started_at: collection.started_at,
            fee_address: collection.fee_address.clone(),
            cw20_address: collection.cw20_address.clone(),
            is_started: collection.is_started,
            is_show: collection.is_show,
            is_enabled: collection.is_enabled,
            unstaking_fee: collection.unstaking_fee,
            unstaking_fee_percent: collection.unstaking_fee_percent,
            server_time: env.time,
        },
    )
}

/// Those of the NFTs that are staked under `collection`, as a query shows
/// them.
fn shown_under(nfts: &Vec<NftInfo>, collection: &String) -> (shown: Vec<StakedNftResponse>)
    ensures
        views(shown@) == shown_nfts(views(nfts@), collection@),
{
    let ghost under = |n: NftInfoView| n.collection_address == collection@;
    let ghost show = |n: NftInfoView| shown_nft(n);
    let ghost all = views(nfts@);
    let mut shown: Vec<StakedNftResponse> = Vec::new();
    let mut k: usize = 0;
    assert(all.take(0).filter(under) =~= Seq::<NftInfoView>::empty()) by {
        reveal(Seq::filter);
    }
    while k < nfts.len()
        invariant
            k <= nfts.len(),
            all == views(nfts@),
            under == |n: NftInfoView| n.collection_address == collection@,
            show == |n: NftInfoView| shown_nft(n),
            views(shown@) =~= all.take(k as int).filter(under).map_values(show),
        decreases nfts.len() - k,
    {
        let ghost seen = all.take(k as int);
        let ghost more = all.take(k + 1);
        let ghost listed = views(shown@);
        proof {
            reveal(Seq::filter);
            assert(more.drop_last() =~= seen);
            assert(more.last() == all[k as int]);
        }
        if nfts[k].collection_address == *collection {
            shown.push(
                StakedNftResponse {
                    nft_id: nfts[k].nft_id.clone(),
                    airdrop: nfts[k].airdrop,
                    lock_time: nfts[k].lock_time,
                },
            );
            proof {
                assert(under(more.last()));
                assert(more.filter(under) == seen.filter(under).push(more.last()));
                assert(views(shown@) =~= listed.push(shown_nft(more.last())));
                assert(seen.filter(under).push(more.last()).map_values(show) =~= seen.filter(under).map_values(
                    show,
                ).push(shown_nft(more.last())));
            }
        } else {
            assert(!under(more.last()));
            assert(more.filter(under) == seen.filter(under));
        }
        k += 1;
    }
    assert(all.take(k as int) =~= all);
    shown
}

/// The NFTs that `address` has staked in the collection.
pub fn query_staked_nfts(storage: &Ledger, address: String, collection_address: String) -> (r: Result<
    StakedNftsResponse,
    ContractError,
>)
    ensures
        answers(r, staked_nfts_answer(storage@, address@, collection_address@)),
{
    let i = match find_record(&storage.collections, &collection_address) {
        None => { return Err(ContractError::InvalidCollection); },
        Some(i) => i,
    };
    match find_record(&storage.collections[i].users, &address) {
        None => {
            let r = StakedNftsResponse { nft_maps: Vec::new() };
            assert(r@ =~= Seq::<crate::msg::StakedNftView>::empty());
            Ok(r)
        },
        Some(j) => Ok(
            StakedNftsResponse {
                nft_maps: shown_under(&storage.collections[i].users[j].staked_nfts, &collection_address),
            },
        ),
    }
}

/// The addresses of those who have an NFT staked in the collection.
pub fn query_user_list(storage: &Ledger, _env: Env, collection_address: String) -> (r: Result<
    UserListResponse,
    ContractError,
>)
    ensures
        answers(r, Ok(user_list_answer(storage@, collection_address@))),
{
    let mut result: Vec<String> = Vec::new();
    let i = match find_record(&storage.collections, &collection_address) {
        None => {
            let r = UserListResponse { addresses: result };
            assert(r@ =~= Seq::<Seq<char>>::empty());
            return Ok(r);
        },
        Some(i) => i,
    };
    let users = &storage.collections[i].users;
    let ghost all = views(users@);
    let ghost staking = |u: UserInfoView| stakes_in(all, u.address, collection_address@);
    let mut j: usize = 0;
    assert(all.take(0).filter(staking) =~= Seq::<UserInfoView>::empty()) by {
        reveal(Seq::filter);
    }
    while j < users.len()
        invariant
            j <= users.len(),
            all == views(users@),
            staking == |u: UserInfoView| stakes_in(all, u.address, collection_address@),
            views(result@) =~= crate::lookup::keys(all.take(j as int).filter(staking)),
        decreases users.len() - j,
    {
        let ghost seen = all.take(j as int);
        let ghost more = all.take(j + 1);
        let ghost listed = views(result@);
        proof {
            reveal(Seq::filter);
            assert(more.drop_last() =~= seen);
            assert(more.last() == all[j as int]);
        }
        let staked = match find_record(users, &users[j].address) {
            None => false,
            Some(first) => shown_under(&users[first].staked_nfts, &collection_address).len() > 0,
        };
        if staked {
            result.push(users[j].address.clone());
            proof {
                assert(staking(more.last()));
                assert(more.filter(staking) == seen.filter(staking).push(more.last()));
                assert(views(result@) =~= listed.push(more.last().address));
                assert(crate::lookup::keys(seen.filter(staking).push(more.last())) =~= crate::lookup::keys(
                    seen.filter(staking),
                ).push(more.last().address));
            }
        } else {
            assert(!staking(more.last()));
            assert(more.filter(staking) == seen.filter(staking));
        }
        j += 1;
    }
    assert(all.take(j as int) =~= all);
    Ok(UserListResponse { addresses: result })
}

/// The addresses of all registered collections.
pub fn query_collection_list(storage: &Ledger) -> (r: Result<CollectionListResponse, ContractError>)
    ensures
        answers(r, Ok(all_collections(storage@))),
{
    let collections = get_all_collections(storage);
    Ok(CollectionListResponse { collections })
}

/// The addresses of the collections that are shown.
pub fn query_shown_collection_list(storage: &Ledger) -> (r: Result<CollectionListResponse, ContractError>)
    ensures
        answers(r, Ok(shown_collections(storage@))),
{
    let collections = get_all_shown_collections(storage);
    Ok(CollectionListResponse { collections })
}

/// The number of NFTs that are locked in the collection at the time of
/// the query.
pub fn query_total_locked(storage: &Ledger, env: Env, collection_address: String) -> (r: Result<
    TotalLockedResponse,
    ContractError,
>)
    ensures
        answers(r, Ok(total_locked_answer(storage@, env@, collection_address@))),
{
    match find_record(&storage.collections, &collection_address) {
        None => Ok(TotalLockedResponse { count: 0 }),
        Some(i) => Ok(TotalLockedResponse { count: count_locked(&storage.collections[i], env.time) }),
    }
}

/// A copy of the list.
fn copy_earn_infos(infos: &Vec<EarnInfo>) -> (copy: Vec<EarnInfo>)
    ensures
        views(copy@) == views(infos@),
{
    let mut copy: Vec<EarnInfo> = Vec::new();
    let mut k: usize = 0;
    while k < infos.len()
        invariant
            k <= infos.len(),
            copy@.len() == k,
            forall|m: int| 0 <= m < k ==> (#[trigger] copy@[m])@ == infos@[m]@,
        decreases infos.len() - k,
    {
        copy.push(
            EarnInfo {
                cw20_address: infos[k].cw20_address.clone(),
                total_earned: infos[k].total_earned,
                claimable: infos[k].claimable,
            },
        );
        k += 1;
    }
    assert(views(copy@) =~~= views(infos@));
    copy
}

/// A copy of the list.
fn copy_airdrop_infos(infos: &Vec<AirdropInfo>) -> (copy: Vec<AirdropInfo>)
    ensures
        views(copy@) == views(infos@),
{
    let mut copy: Vec<AirdropInfo> = Vec::new();
    let mut k: usize = 0;
    while k < infos.len()
        invariant
            k <= infos.len(),
            copy@.len() == k,
            forall|m: int| 0 <= m < k ==> (#[trigger] copy@[m])@ == infos@[m]@,
        decreases infos.len() - k,
    {
        copy.push(
            AirdropInfo {
                cw20_address: infos[k].cw20_address.clone(),
                total_airdrop: infos[k].total_airdrop,
                airdropable: infos[k].airdropable,
            },
        );
        k += 1;
    }
    assert(views(copy@) =~~= views(infos@));
    copy
}

/// What `address` has earned and can claim in the collection.
pub fn query_earn_infos(storage: &Ledger, address: String, collection_address: String) -> (r: Result<
    EarnInfosResponse,
    ContractError,
>)
    ensures
        answers(r, earn_infos_answer(storage@, address@, collection_address@)),
{
    let i = match find_record(&storage.collections, &collection_address) {
        None => { return Err(ContractError::InvalidCollection); },
        Some(i) => i,
    };
    match find_record(&storage.collections[i].users, &address) {
        None => {
            let r = EarnInfosResponse { total_earned: 0, claimable: 0, earn_infos: Vec::new() };
            assert(r@ =~~= (crate::msg::EarnInfosView { total_earned: 0, claimable: 0, earn_infos: Seq::empty() }));
            Ok(r)
        },
        Some(j) => {
            let userinfo = &storage.collections[i].users[j];
            Ok(
                EarnInfosResponse {
                    total_earned: userinfo.total_earnd,
                    claimable: userinfo.claimable,
                    earn_infos: copy_earn_infos(&userinfo.earn_infos),
                },
            )
        },
    }
}

/// The pools of the collection at `address`.
pub fn query_airdrop_infos(storage: &Ledger, address: String) -> (r: Result<AirdropInfosResponse, ContractError>)
    ensures
        answers(r, Ok(airdrop_infos_answer(storage@, address@))),
{
    match find_record(&storage.collections, &address) {
        None => {
            let r = AirdropInfosResponse { total_airdrop: 0, airdropable: 0, airdrop_infos: Vec::new() };
            assert(r@ =~~= (crate::msg::AirdropInfosView {
                total_airdrop: 0,
                airdropable: 0,
                airdrop_infos: Seq::empty(),
            }));
            Ok(r)
        },
        Some(i) => {
            let collection = &storage.collections[i];
            Ok(
                AirdropInfosResponse {
                    total_airdrop: collection.total_airdrop,
                    airdropable: collection.airdropable,
                    airdrop_infos: copy_airdrop_infos(&collection.airdrop_infos),
                },
            )
        },
    }
}

/// The ledger that `msg` sets up: the owner is also its creator, and no
/// collection is registered.
pub open spec fn instantiate_model(msg: InstantiateMsg) -> LedgerView {
    LedgerView {
        config: ConfigView {
            owner: msg.owner@,
            creator: msg.owner@,
            fee_address: msg.fee_address@,
            native_token: msg.native_token@,
            tx_fee: msg.tx_fee as nat,
        },
        collections: Seq::empty(),
    }
}

/// Sets up a ledger.
pub fn instantiate(_env: Env, _info: MessageInfo, msg: InstantiateMsg) -> (storage: Ledger)
    ensures
        storage@ == instantiate_model(msg),
{
    let config = Config {
        owner: msg.owner.clone(),
        creator: msg.owner,
        fee_address: msg.fee_address,
        tx_fee: msg.tx_fee,
        native_token: msg.native_token,
    };
    let storage = Ledger { config, collections: Vec::new() };
    assert(storage@ =~~= instantiate_model(msg));
    storage
}

/// Takes the ledger over from an earlier version of the code: as it is.
pub fn migrate(storage: &mut Ledger, _env: Env) -> (r: Result<Response, ContractError>)
    ensures
        meets(unchanged(old(storage)@), old(storage)@, final(storage)@, r),
{
    Ok(Response::new())
}

/// What the call `msg` does; each kind of call does what the function of
/// its name does. `balance` is read by the calls that pay out of the ledger
/// or pull a token into it.
pub open spec fn execute_model(l: LedgerView, env: EnvView, info: MessageInfoView, msg: ExecuteMsg, balance: nat) -> Transition {
    match msg {
        ExecuteMsg::UpdateOwner { owner } => update_owner_model(l, info.sender, owner@),
        ExecuteMsg::UpdateFeeAddress { fee_address } => update_fee_address_model(l, info.sender, fee_address@),
        ExecuteMsg::UpdateTxFee { tx_fee } => update_tx_fee_model(l, info.sender, tx_fee as nat),
        ExecuteMsg::RegisteCollection {
            collection_address,
            owner,
            new_unstaking_fee,
            new_unstaking_fee_percent,
            cw20_address,
        } => registe_collection_model(
            l,
            info.sender,
            collection_address@,
            owner@,
            cw20_address@,
            new_unstaking_fee as nat,
            new_unstaking_fee_percent as nat,
        ),
        ExecuteMsg::UpdateCollectionFee {
            collection_address,
            new_unstaking_fee,
            new_unstaking_fee_percent,
        } => update_collection_fee_model(
            l,
            info.sender,
            collection_address@,
            new_unstaking_fee as nat,
            new_unstaking_fee_percent as nat,
        ),
        ExecuteMsg::UpdateCollectionState { collection_address, is_show } => update_collection_state_model(
            l,
            info.sender,
            collection_address@,
            is_show,
        ),
        ExecuteMsg::UpdateCollection {
            collection_address,
            new_cw20_address,
            new_owner,
            new_duration,
            new_fee_address,
            is_enabled,
        } => update_collection_model(
            l,
            info.sender,
            collection_address@,
            new_cw20_address@,
            new_owner@,
            new_duration as nat,
            new_fee_address@,
            is_enabled,
        ),
        ExecuteMsg::Charge { collection_address } => charge_model(l, info, collection_address@),
        ExecuteMsg::ChargeToken { collection_address, charge_amount } => charge_token_model(
            l,
            env,
            info,
            collection_address@,
            charge_amount as nat,
            balance,
        ),
        ExecuteMsg::Withdraw { amount } => withdraw_model(l, info, amount as nat, balance),
        ExecuteMsg::WithdrawAirdrop { collection_address, cw20_address, amount } => withdraw_airdrop_model(
            l,
            info,
            collection_address@,
            cw20_address@,
            amount as nat,
            balance,
        ),
        ExecuteMsg::Airdrop { collection_address, cw20_address, airdrop_amount } => airdrop_model(
            l,
            env,
            info,
            collection_address@,
            cw20_address@,
            airdrop_amount as nat,
        ),
        ExecuteMsg::AirdropRestart { collection_address } => airdrop_restart_model(l, env, info, collection_address@),
        ExecuteMsg::Restake { collection_address, token_id } => restake_model(
            l,
            env,
            info,
            collection_address@,
            views(token_id@),
        ),
        ExecuteMsg::Unstake { collection_address, token_id } => unstake_model(
            l,
            env,
            info,
            collection_address@,
            views(token_id@),
        ),
        ExecuteMsg::Staking { collection_address, token_id } => stake_model(
            l,
            env,
            info,
            collection_address@,
            views(token_id@),
        ),
        ExecuteMsg::Claim { collection_address, cw20_address } => claim_model(
            l,
            info,
            collection_address@,
            cw20_address@,
            balance,
        ),
        ExecuteMsg::TransferNft { collection_address, nft_id, recipient } => transfer_nft_model(
            l,
            info,
            collection_address@,
            nft_id@,
            recipient@,
        ),
    }
}

/// Whose balance of which currency the call reads, if it reads one: for
/// `ChargeToken`, what the caller holds of the collection's reward token; for
/// `Withdraw`, what the ledger holds of the native currency; for
/// `WithdrawAirdrop` and `Claim`, what the ledger holds of the currency that
/// `cw20_address` stands for.
pub open spec fn balance_query(l: LedgerView, env: EnvView, info: MessageInfoView, msg: ExecuteMsg) -> Option<
    (DenomView, Seq<char>),
> {
    match msg {
        ExecuteMsg::ChargeToken { collection_address, .. } => match crate::lookup::find(
            l.collections,
            collection_address@,
        ) {
            Some(i) => if l.collections[i].cw20_address.len() == 0 {
                None
            } else {
                Some((DenomView::Cw20(l.collections[i].cw20_address), info.sender))
            },
            None => None,
        },
        ExecuteMsg::Withdraw { .. } => Some((DenomView::Native(l.config.native_token), env.contract_address)),
        ExecuteMsg::WithdrawAirdrop { cw20_address, .. } => Some(
            (denom_of(l.config.native_token, cw20_address@), env.contract_address),
        ),
        ExecuteMsg::Claim { cw20_address, .. } => Some(
            (denom_of(l.config.native_token, cw20_address@), env.contract_address),
        ),
        _ => None,
    }
}

/// Whose balance of which currency the host has to find out before it
/// hands the call `msg` to `execute`; nothing for a call that reads none.
pub fn balance_read(storage: &Ledger, env: &Env, info: &MessageInfo, msg: &ExecuteMsg) -> (r: Option<(Denom, String)>)
    ensures
        match r {
            Some((denom, holder)) => balance_query(storage@, env@, info@, *msg) == Some((denom@, holder@)),
            None => balance_query(storage@, env@, info@, *msg) is None,
        },
{
    match msg {
        ExecuteMsg::ChargeToken { collection_address, .. } => match find_record(
            &storage.collections,
            collection_address,
        ) {
            Some(i) => {
                if storage.collections[i].cw20_address.as_str().is_empty() {
                    None
                } else {
                    Some((Denom::Cw20(storage.collections[i].cw20_address.clone()), info.sender.clone()))
                }
            },
            None => None,
        },
        ExecuteMsg::Withdraw { .. } => Some(
            (Denom::Native(storage.config.native_token.clone()), env.contract_address.clone()),
        ),
        ExecuteMsg::WithdrawAirdrop { cw20_address, .. } => Some(
            (denom_for(&storage.config.native_token, cw20_address), env.contract_address.clone()),
        ),
        ExecuteMsg::Claim { cw20_address, .. } => Some(
            (denom_for(&storage.config.native_token, cw20_address), env.contract_address.clone()),
        ),
        _ => None,
    }
}

/// A call that reads no balance does the same whatever the balance is.
pub proof fn lemma_unread_balance(
    l: LedgerView,
    env: EnvView,
    info: MessageInfoView,
    msg: ExecuteMsg,
    balance: nat,
    other: nat,
)
    requires
        balance_query(l, env, info, msg) is None,
    ensures
        execute_model(l, env, info, msg, balance) == execute_model(l, env, info, msg, other),
{
}

/// Carries out the call `msg` of the caller `info.sender`.
///
/// `balance` is the balance that `balance_read` names for the call, as the
/// host has found it: for `ChargeToken`, what the caller holds of the
/// collection's reward token; for `Withdraw`, `WithdrawAirdrop` and `Claim`,
/// what the ledger holds of the currency that is paid out. The other calls do
/// not read it.
pub fn execute(storage: &mut Ledger, env: Env, info: MessageInfo, msg: ExecuteMsg, balance: u128) -> (r: Result<
    Response,
    ContractError,
>)
    requires
        representable(execute_model(old(storage)@, env@, info@, msg, balance as nat)),
    ensures
        meets(execute_model(old(storage)@, env@, info@, msg, balance as nat), old(storage)@, final(storage)@, r),
{
    match msg {
        ExecuteMsg::UpdateOwner { owner } => execute_update_owner(storage, info.sender, owner),
        ExecuteMsg::UpdateFeeAddress { fee_address } => execute_update_fee_address(
            storage,
            info.sender,
            fee_address,
        ),
        ExecuteMsg::UpdateTxFee { tx_fee } => execute_update_tx_fee(storage, info.sender, tx_fee),
        ExecuteMsg::RegisteCollection {
            collection_address,
            owner,
            new_unstaking_fee,
            new_unstaking_fee_percent,
            cw20_address,
        } => execute_registe_collection(
            storage,
            info.sender,
            collection_address,
            owner,
            cw20_address,
            new_unstaking_fee,
            new_unstaking_fee_percent,
        ),
        ExecuteMsg::UpdateCollectionFee {
            collection_address,
            new_unstaking_fee,
            new_unstaking_fee_percent,
        } => execute_update_collection_fee(
            storage,
            info.sender,
            collection_address,
            new_unstaking_fee,
            new_unstaking_fee_percent,
        ),
        ExecuteMsg::UpdateCollectionState { collection_address, is_show } => execute_update_collection_state(
            storage,
            info.sender,
            collection_address,
            is_show,
        ),
        ExecuteMsg::UpdateCollection {
            collection_address,
            new_cw20_address,
            new_owner,
            new_duration,
            new_fee_address,
            is_enabled,
        } => execute_update_collection(
            storage,
            info.sender,
            collection_address,
            new_cw20_address,
            new_owner,
            new_duration,
            new_fee_address,
            is_enabled,
        ),
        ExecuteMsg::Charge { collection_address } => execute_charge(storage, info, collection_address),
        ExecuteMsg::ChargeToken { collection_address, charge_amount } => execute_charge_token(
            storage,
            env,
            info,
            collection_address,
            charge_amount,
            balance,
        ),
        ExecuteMsg::Withdraw { amount } => execute_withdraw(storage, env, info, amount, balance),
        ExecuteMsg::WithdrawAirdrop { collection_address, cw20_address, amount } => execute_withdraw_airdrop(
            storage,
            env,
            info,
            collection_address,
            cw20_address,
            amount,
            balance,
        ),
        ExecuteMsg::Airdrop { collection_address, cw20_address, airdrop_amount } => execute_airdrop(
            storage,
            env,
            info,
            collection_address,
            cw20_address,
            airdrop_amount,
        ),
        ExecuteMsg::AirdropRestart { collection_address } => execute_airdrop_restart(
            storage,
            env,
            info,
            collection_address,
        ),
        ExecuteMsg::Unstake { collection_address, token_id } => execute_unstake(
            storage,
            env,
            info,
            collection_address,
            token_id,
        ),
        ExecuteMsg::Staking { collection_address, token_id } => execute_stake(
            storage,
            env,
            info,
            collection_address,
            token_id,
        ),
        ExecuteMsg::TransferNft { collection_address, nft_id, recipient } => execute_transfer_nft(
            storage,
            env,
            info,
            collection_address,
            nft_id,
            recipient,
        ),
        ExecuteMsg::Claim { collection_address, cw20_address } => execute_claim(
            storage,
            env,
            info,
            collection_address,
            cw20_address,
            balance,
        ),
        ExecuteMsg::Restake { collection_address, token_id } => execute_restake(
            storage,
            env,
            info,
            collection_address,
            token_id,
        ),
    }
}

/// Carries out the call `msg` as `execute` does, if its outcome can be
/// held in the machine's numbers; if not, it returns nothing and leaves the
/// ledger as it is.
pub fn try_execute(storage: &mut Ledger, env: Env, info: MessageInfo, msg: ExecuteMsg, balance: u128) -> (r: Option<
    Result<Response, ContractError>,
>)
    ensures
        match r {
            Some(done) => representable(execute_model(old(storage)@, env@, info@, msg, balance as nat)) && meets(
                execute_model(old(storage)@, env@, info@, msg, balance as nat),
                old(storage)@,
                final(storage)@,
                done,
            ),
            None => !representable(execute_model(old(storage)@, env@, info@, msg, balance as nat))
                && final(storage)@ == old(storage)@,
        },
{
    if crate::fit::execute_fits(storage, &env, &info, &msg, balance) {
        Some(execute(storage, env, info, msg, balance))
    } else {
        None
    }
}

/// Stakes a received NFT as `execute_receive_nft` does, if the outcome can
/// be held in the machine's numbers; if not, it returns nothing and leaves
/// the ledger as it is.
pub fn try_receive_nft(storage: &mut Ledger, env: Env, info: MessageInfo, wrapper: Cw721ReceiveMsg) -> (r: Option<
    Result<Response, ContractError>,
>)
    ensures
        match r {
            Some(done) => representable(receive_nft_model(old(storage)@, env@, info@, wrapper@)) && meets(
                receive_nft_model(old(storage)@, env@, info@, wrapper@),
                old(storage)@,
                final(storage)@,
                done,
            ),
            None => !representable(receive_nft_model(old(storage)@, env@, info@, wrapper@)) && final(storage)@
                == old(storage)@,
        },
{
    if crate::fit::receive_nft_fits(storage, &env, &info, &wrapper) {
        Some(execute_receive_nft(storage, env, info, wrapper))
    } else {
        None
    }
}

/// The result `r` answers the query `msg`: it is of the kind that the
/// query asks for and holds what the query function of that kind returns.
pub open spec fn query_answered(l: LedgerView, env: EnvView, msg: QueryMsg, r: Result<QueryResponse, ContractError>) -> bool {
    match msg {
        QueryMsg::GetConfig {  } => r matches Ok(QueryResponse::Config(a)) && a@ == config_answer(l),
        QueryMsg::GetCollection { collection_address } => match r {
            Ok(QueryResponse::Collection(a)) => collection_answer(l, env, collection_address@) == Ok::<
                _,
                ContractError,
            >(a@),
            Ok(_) => false,
            Err(e) => collection_answer(l, env, collection_address@) == Err::<
                crate::msg::CollectionResponseView,
                ContractError,
            >(e),
        },
        QueryMsg::GetUserList { collection_address } => r matches Ok(QueryResponse::UserList(a)) && a@
            == user_list_answer(l, collection_address@),
        QueryMsg::GetCollectionList {  } => r matches Ok(QueryResponse::CollectionList(a)) && a@
            == all_collections(l),
        QueryMsg::GetShownCollectionList {  } => r matches Ok(QueryResponse::CollectionList(a)) && a@
            == shown_collections(l),
        QueryMsg::GetTotalLocked { collection_address } => r matches Ok(QueryResponse::TotalLocked(a)) && a@
            == total_locked_answer(l, env, collection_address@),
        QueryMsg::GetStakedNfts { address, collection_address } => match r {
            Ok(QueryResponse::StakedNfts(a)) => staked_nfts_answer(l, address@, collection_address@) == Ok::<
                _,
                ContractError,
            >(a@),
            Ok(_) => false,
            Err(e) => staked_nfts_answer(l, address@, collection_address@) == Err::<
                Seq<crate::msg::StakedNftView>,
                ContractError,
            >(e),
        },
        QueryMsg::GetEarnInfos { address, collection_address } => match r {
            Ok(QueryResponse::EarnInfos(a)) => earn_infos_answer(l, address@, collection_address@) == Ok::<
                _,
                ContractError,
            >(a@),
            Ok(_) => false,
            Err(e) => earn_infos_answer(l, address@, collection_address@) == Err::<
                crate::msg::EarnInfosView,
                ContractError,
            >(e),
        },
        QueryMsg::GetAirdropInfos { address } => r matches Ok(QueryResponse::AirdropInfos(a)) && a@
            == airdrop_infos_answer(l, address@),
    }
}

/// Answers the query `msg`.
pub fn query(storage: &Ledger, env: Env, msg: QueryMsg) -> (r: Result<QueryResponse, ContractError>)
    ensures
        query_answered(storage@, env@, msg, r),
{
    match msg {
        QueryMsg::GetConfig {  } => match query_config(storage) {
            Ok(a) => Ok(QueryResponse::Config(a)),
            Err(e) => Err(e),
        },
        QueryMsg::GetCollection { collection_address } => match query_collection(storage, env, collection_address) {
            Ok(a) => Ok(QueryResponse::Collection(a)),
            Err(e) => Err(e),
        },
        QueryMsg::GetUserList { collection_address } => match query_user_list(storage, env, collection_address) {
            Ok(a) => Ok(QueryResponse::UserList(a)),
            Err(e) => Err(e),
        },
        QueryMsg::GetCollectionList {  } => match query_collection_list(storage) {
            Ok(a) => Ok(QueryResponse::CollectionList(a)),
            Err(e) => Err(e),
        },
        QueryMsg::GetShownCollectionList {  } => match query_shown_collection_list(storage) {
            Ok(a) => Ok(QueryResponse::CollectionList(a)),
            Err(e) => Err(e),
        },
        QueryMsg::GetTotalLocked { collection_address } => match query_total_locked(
            storage,
            env,
            collection_address,
        ) {
            Ok(a) => Ok(QueryResponse::TotalLocked(a)),
            Err(e) => Err(e),
        },
        QueryMsg::GetStakedNfts { address, collection_address } => match query_staked_nfts(
            storage,
            address,
            collection_address,
        ) {
            Ok(a) => Ok(QueryResponse::StakedNfts(a)),
            Err(e) => Err(e),
        },
        QueryMsg::GetAirdropInfos { address } => match query_airdrop_infos(storage, address) {
            Ok(a) => Ok(QueryResponse::AirdropInfos(a)),
            Err(e) => Err(e),
        },
        QueryMsg::GetEarnInfos { address, collection_address } => match query_earn_infos(
            storage,
            address,
            collection_address,
        ) {
            Ok(a) => Ok(QueryResponse::EarnInfos(a)),
            Err(e) => Err(e),
        },
    }
}

/// Takes the NFTs `token_id` of the caller out of the collection.
///
/// The caller has to hold each of them there. Each one whose lock has yet
/// to run out costs the collection's unstaking fee, if it has one; the call
/// has to come with the sum, which is split between the ledger's fee address
/// and the collection's. The response instructs the transfer of each NFT
/// back to the caller, then the payments of the fee. Nothing is taken out
/// unless everything is.
pub fn execute_unstake(
    storage: &mut Ledger,
    env: Env,
    info: MessageInfo,
    collection_address: String,
    token_id: Vec<String>,
) -> (r: Result<Response, ContractError>)
    requires
        representable(unstake_model(old(storage)@, env@, info@, collection_address@, views(token_id@))),
    ensures
        meets(
            unstake_model(old(storage)@, env@, info@, collection_address@, views(token_id@)),
            old(storage)@,
            final(storage)@,
            r,
        ),
{
    let i = match find_record(&storage.collections, &collection_address) {
        None => { return Err(ContractError::InvalidCollection); },
        Some(i) => i,
    };
    let j = match find_record(&storage.collections[i].users, &info.sender) {
        None => { return Err(ContractError::NoStakedNft); },
        Some(j) => j,
    };
    if storage.collections[i].users[j].staked_nfts.len() == 0 {
        return Err(ContractError::NoStakedNft);
    }
    let ghost before = storage@.collections[i as int];
    let ghost ids = views(token_id@);
    let ghost want = unstake_model(storage@, env@, info@, collection_address@, ids);
    let (nfts, early) = match unstake_scan(
        &storage.collections[i].users[j].staked_nfts,
        &token_id,
        env.time,
        &storage.collections[i].address,
    ) {
        Ok(left) => left,
        Err(e) => { return Err(e); },
    };
    let ghost left = Unstaking { nfts: views(nfts@), early: early as nat };
    let ghost fee = left.early * before.unstaking_fee;
    let total_fee = match (early as u128).checked_mul(storage.collections[i].unstaking_fee) {
        None => {
            assert(fee > 0);
            return Err(ContractError::Locktime);
        },
        Some(total_fee) => total_fee,
    };
    if total_fee > 0 {
        match must_pay(&info, &storage.config.native_token) {
            Ok(receive_fee) => {
                if receive_fee < total_fee {
                    return Err(ContractError::Locktime);
                }
            },
            Err(_err) => {
                return Err(ContractError::Locktime);
            },
        }
    }
    let ghost want_transfers = transfer_nft_msgs(before.address, ids, info@.sender);
    let ghost want_fees = fee_msgs(storage@.config, before, fee);
    let ghost next = put_collection(
        storage@,
        i as int,
        CollectionView {
            users: before.users.update(j as int, UserInfoView { staked_nfts: left.nfts, ..before.users[j as int] }),
            ..before
        },
    );
    assert(want == Ok::<_, ContractError>((next, want_transfers + want_fees)));
    let mut msgs: Vec<CosmosMsg> = Vec::new();
    let mut n: usize = 0;
    while n < token_id.len()
        invariant
            n <= token_id.len(),
            i < storage.collections.len(),
            storage == old(storage),
            before == storage@.collections[i as int],
            ids == views(token_id@),
            want == unstake_model(old(storage)@, env@, info@, collection_address@, ids),
            want == Ok::<_, ContractError>((next, want_transfers + want_fees)),
            representable(want),
            want_transfers == transfer_nft_msgs(before.address, ids, info@.sender),
            msgs@.len() == n,
            forall|m: int| 0 <= m < n ==> (#[trigger] msgs@[m])@ == want_transfers[m],
        decreases token_id.len() - n,
    {
        let msg = match transfer_nft_message(
            storage.collections[i].address.clone(),
            token_id[n].clone(),
            info.sender.clone(),
        ) {
            Ok(msg) => msg,
            Err(e) => {
                assert(!(want_transfers + want_fees)[n as int].encodes());
                return Err(e);
            },
        };
        msgs.push(msg);
        n += 1;
    }
    if total_fee > 0 {
        proof {
            assert(fee == total_fee);
            assert(want_fees.len() >= 1);
            let all = want_transfers + want_fees;
            let last = all.len() - 1;
            assert(want matches Ok((_, msgs)) && msgs == all);
            assert(0 <= last < all.len());
            assert(all[last].fits());
            assert((want_transfers + want_fees)[last] == want_fees[want_fees.len() - 1]);
        }
        push_fee_messages(
            &mut msgs,
            total_fee,
            storage.collections[i].unstaking_fee_percent,
            &storage.config.native_token,
            &storage.config.fee_address,
            &storage.collections[i].fee_address,
        );
    }
    assert(views(msgs@) =~~= want_transfers + want_fees);
    storage.collections[i].users[j].staked_nfts = nfts;
    assert(storage@.collections[i as int].users[j as int] =~~= (UserInfoView {
        staked_nfts: left.nfts,
        ..before.users[j as int]
    }));
    assert(storage@.collections[i as int] =~~= next.collections[i as int]);
    assert(storage@ =~~= next);
    Ok(Response { messages: msgs })
}

/// Locks anew those of the caller's NFTs `token_id` whose lock has run
/// out.
///
/// The collection has to be enabled, with an airdrop round open, and the
/// call has to pay the flat fee, if there is one. The caller has to hold
/// each of the NFTs in the collection. One whose lock has run out is locked
/// for the collection's lock period from the time of the call and no longer
/// counts as airdropped; one that is still locked stays as it is.
pub fn execute_restake(
    storage: &mut Ledger,
    env: Env,
    info: MessageInfo,
    collection_address: String,
    token_id: Vec<String>,
) -> (r: Result<Response, ContractError>)
    requires
        representable(restake_model(old(storage)@, env@, info@, collection_address@, views(token_id@))),
    ensures
        meets(
            restake_model(old(storage)@, env@, info@, collection_address@, views(token_id@)),
            old(storage)@,
            final(storage)@,
            r,
        ),
{
    check_enabled(storage, collection_address.clone())?;
    check_airdrop_start(storage, collection_address.clone())?;
    let i = match find_record(&storage.collections, &collection_address) {
        None => { return Err(ContractError::InvalidCollection); },
        Some(i) => i,
    };
    if storage.config.tx_fee > 0 {
        let fee_amount = match must_pay(&info, &storage.config.native_token) {
            Ok(it) => it,
            Err(_err) => { return Err(ContractError::InsufficientCw20); },
        };
        if fee_amount < storage.config.tx_fee {
            return Err(ContractError::InsufficientCw20);
        }
    }
    let j = match find_record(&storage.collections[i].users, &info.sender) {
        None => { return Err(ContractError::NoStakedNft); },
        Some(j) => j,
    };
    if storage.collections[i].users[j].staked_nfts.len() == 0 {
        return Err(ContractError::NoStakedNft);
    }
    let ghost before = storage@.collections[i as int];
    let ghost held = before.users[j as int].staked_nfts;
    let ghost ids = views(token_id@);
    let ghost want = restake_model(storage@, env@, info@, collection_address@, ids);
    let ghost now = env@.time;
    let ghost duration = before.duration;
    match restake_check(
        &storage.collections[i].users[j].staked_nfts,
        &token_id,
        env.time,
        Ghost(duration),
        &storage.collections[i].address,
    ) {
        Ok(_) => {},
        Err(e) => { return Err(e); },
    }
    let ghost last = restake_nfts(held, ids, ids.len(), now, duration, before.address)->Ok_0;
    let ghost next = put_collection(
        storage@,
        i as int,
        CollectionView {
            users: before.users.update(j as int, UserInfoView { staked_nfts: last, ..before.users[j as int] }),
            ..before
        },
    );
    proof {
        assert(want == Ok::<_, ContractError>((next, Seq::<CosmosMsgView>::empty())));
        assert(next.collections[i as int].fits());
        assert(next.collections[i as int].users[j as int].fits());
        assert(next.collections[i as int].users[j as int].staked_nfts == last);
        lemma_restake_keeps_ids(held, ids, ids.len(), now, duration, before.address);
        assert(forall|k: int| 0 <= k < last.len() ==> (#[trigger] last[k]).fits());
    }
    let mut n: usize = 0;
    while n < token_id.len()
        invariant
            n <= token_id.len(),
            i < storage.collections.len(),
            j < storage.collections@[i as int].users@.len(),
            ids == views(token_id@),
            now == env@.time,
            duration == before.duration,
            storage.config == old(storage).config,
            storage.collections@.len() == old(storage).collections@.len(),
            forall|m: int|
                0 <= m < storage.collections@.len() && m != i ==> (#[trigger] storage.collections@[m])
                    == old(storage).collections@[m],
            storage.collections@[i as int]@ == (CollectionView {
                users: storage.collections@[i as int]@.users,
                ..before
            }),
            storage.collections@[i as int].users@.len() == before.users.len(),
            forall|m: int|
                0 <= m < before.users.len() && m != j ==> (#[trigger] storage.collections@[i as int].users@[m])@
                    == before.users[m],
            storage.collections@[i as int].users@[j as int]@ == (UserInfoView {
                staked_nfts: storage.collections@[i as int].users@[j as int]@.staked_nfts,
                ..before.users[j as int]
            }),
            restake_nfts(held, ids, n as nat, now, duration, before.address) == Ok::<
                Seq<NftInfoView>,
                ContractError,
            >(storage.collections@[i as int].users@[j as int]@.staked_nfts),
            restake_nfts(held, ids, ids.len(), now, duration, before.address) == Ok::<
                Seq<NftInfoView>,
                ContractError,
            >(last),
            forall|k: int| 0 <= k < last.len() ==> (#[trigger] last[k]).fits(),
            last.len() == held.len(),
        decreases token_id.len() - n,
    {
        let ghost so_far = storage.collections@[i as int].users@[j as int]@.staked_nfts;
        proof {
            lemma_restake_keeps_ids(held, ids, n as nat, now, duration, before.address);
            if restake_nfts(held, ids, (n + 1) as nat, now, duration, before.address) is Err {
                lemma_restake_failure_stays(held, ids, (n + 1) as nat, ids.len(), now, duration, before.address);
            }
        }
        match find_record(&storage.collections[i].users[j].staked_nfts, &token_id[n]) {
            None => {},
            Some(k) => {
                if storage.collections[i].users[j].staked_nfts[k].lock_time <= env.time {
                    proof {
                        lemma_restake_renewal_stays(
                            held,
                            ids,
                            (n + 1) as nat,
                            ids.len(),
                            k as int,
                            now,
                            duration,
                            before.address,
                        );
                        assert(last[k as int].fits());
                    }
                    storage.collections[i].users[j].staked_nfts[k].lock_time = env.time
                        + storage.collections[i].duration;
                    storage.collections[i].users[j].staked_nfts[k].airdrop = false;
                    assert(storage.collections@[i as int].users@[j as int]@.staked_nfts =~~= so_far.update(
                        k as int,
                        NftInfoView { lock_time: now + duration, airdrop: false, ..so_far[k as int] },
                    ));
                }
            },
        }
        n += 1;
    }
    assert(storage@.collections[i as int].users =~~= next.collections[i as int].users);
    assert(storage@.collections[i as int] =~~= next.collections[i as int]);
    assert(storage@ =~~= next);
    Ok(Response::new())
}

} // verus!
