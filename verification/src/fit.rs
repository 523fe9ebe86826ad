//! Whether the outcome of a call can be held in the machine's numbers.
//!
//! The calls that add to a balance or to a time ask of their callers that
//! the sum fits. The functions of this file test that, so that a caller who
//! cannot know it beforehand can find it out.
use vstd::prelude::*;
use crate::batch::{
    lemma_nothing_renewed, lemma_something_renewed, lemma_unstake_leaves_fitting, restake_check,
    unstake_scan,
};
use crate::contract::execute_model;
use crate::host::{Env, MessageInfo};
use crate::laws::lemma_restake_keeps_locked;
use crate::lookup::{find, find_record, keys, lemma_position};
use crate::model::{put_collection, representable};
use crate::msg::{Cw721ReceiveMsg, ExecuteMsg, NftReceiveMsg};
use crate::rewards::{
    airdrop_collection, airdrop_model, airdrop_to_user, airdrop_to_users, charge_model, charge_pool,
    charge_token_model, claim_model, claimable_of, credit, draw_pool, earned_of, locked_nfts, mark_locked,
    pay_out,
};
use crate::staking::{
    add_nfts, fee_msgs, new_nfts, new_user, owner_fee, receive_nft_model, restake_model, restake_nfts,
    stake_model, transfer_nft_msgs, unstake_model, unstake_nfts,
};
use crate::state::{
    Collection, CollectionView, Ledger, LedgerView, NftInfoView, UserInfo, UserInfoView, views,
};
use crate::util::{count_locked, count_locked_nfts};
use crate::wire::must_pay;

verus! {

/// A user as it is held fits.
pub proof fn lemma_user_fits(user: UserInfo)
    ensures
        user@.fits(),
{
    assert forall|i: int| 0 <= i < user@.earn_infos.len() implies (#[trigger] user@.earn_infos[i]).fits() by {
        assert(user@.earn_infos[i] == user.earn_infos@[i]@);
    }
    assert forall|i: int| 0 <= i < user@.staked_nfts.len() implies (#[trigger] user@.staked_nfts[i]).fits() by {
        assert(user@.staked_nfts[i] == user.staked_nfts@[i]@);
    }
}

/// A collection as it is held fits.
pub proof fn lemma_collection_fits(collection: Collection)
    ensures
        collection@.fits(),
{
    assert forall|i: int| 0 <= i < collection@.airdrop_infos.len() implies (
    #[trigger] collection@.airdrop_infos[i]).fits() by {
        assert(collection@.airdrop_infos[i] == collection.airdrop_infos@[i]@);
    }
    assert forall|i: int| 0 <= i < collection@.users.len() implies (#[trigger] collection@.users[i]).fits() by {
        assert(collection@.users[i] == collection.users@[i]@);
        lemma_user_fits(collection.users@[i]);
    }
}

/// A ledger as it is held fits.
pub proof fn lemma_ledger_fits(ledger: Ledger)
    ensures
        ledger@.fits(),
{
    assert forall|i: int| 0 <= i < ledger@.collections.len() implies (#[trigger] ledger@.collections[i]).fits() by {
        assert(ledger@.collections[i] == ledger.collections@[i]@);
        lemma_collection_fits(ledger.collections@[i]);
    }
}

/// A ledger that fits, with one of its collections replaced, fits if and
/// only if the new collection does.
pub proof fn lemma_put_fits(l: LedgerView, i: int, c: CollectionView)
    requires
        l.fits(),
        0 <= i < l.collections.len(),
    ensures
        put_collection(l, i, c).fits() <==> c.fits(),
{
    let next = put_collection(l, i, c);
    if c.fits() {
        assert forall|m: int| 0 <= m < next.collections.len() implies (#[trigger] next.collections[m]).fits() by {
            if m != i {
                assert(l.collections[m].fits());
            }
        }
    }
    if next.fits() {
        assert(next.collections[i].fits());
    }
}

/// A collection that fits, with one of its users replaced, fits if and
/// only if the new user does.
pub proof fn lemma_put_user_fits(c: CollectionView, j: int, u: UserInfoView)
    requires
        c.fits(),
        0 <= j < c.users.len(),
    ensures
        (CollectionView { users: c.users.update(j, u), ..c }).fits() <==> u.fits(),
{
    let next = CollectionView { users: c.users.update(j, u), ..c };
    if u.fits() {
        assert forall|m: int| 0 <= m < next.users.len() implies (#[trigger] next.users[m]).fits() by {
            if m != j {
                assert(c.users[m].fits());
            }
        }
        assert forall|m: int| 0 <= m < next.airdrop_infos.len() implies (#[trigger] next.airdrop_infos[m]).fits() by {
            assert(c.airdrop_infos[m].fits());
        }
    }
    if next.fits() {
        assert(next.users[j].fits());
    }
}

/// A collection that fits, with NFTs added for a participant, fits if
/// and only if each of the added NFTs does.
pub proof fn lemma_add_nfts_fits(c: CollectionView, who: Seq<char>, nfts: Seq<NftInfoView>)
    requires
        c.fits(),
    ensures
        (CollectionView { users: add_nfts(c.users, who, nfts), ..c }).fits() <==> forall|k: int|
            0 <= k < nfts.len() ==> (#[trigger] nfts[k]).fits(),
{
    let next = CollectionView { users: add_nfts(c.users, who, nfts), ..c };
    lemma_position(keys(c.users), who);
    match find(c.users, who) {
        Some(j) => {
            let u = UserInfoView { staked_nfts: c.users[j].staked_nfts + nfts, ..c.users[j] };
            lemma_put_user_fits(c, j, u);
            assert(c.users[j].fits());
            if u.fits() {
                assert forall|k: int| 0 <= k < nfts.len() implies (#[trigger] nfts[k]).fits() by {
                    assert(u.staked_nfts[c.users[j].staked_nfts.len() + k] == nfts[k]);
                }
            }
            if forall|k: int| 0 <= k < nfts.len() ==> (#[trigger] nfts[k]).fits() {
                assert forall|m: int| 0 <= m < u.staked_nfts.len() implies (#[trigger] u.staked_nfts[m]).fits() by {
                    if m < c.users[j].staked_nfts.len() {
                        assert(c.users[j].staked_nfts[m].fits());
                    } else {
                        assert(nfts[m - c.users[j].staked_nfts.len()].fits());
                    }
                }
                assert forall|m: int| 0 <= m < u.earn_infos.len() implies (#[trigger] u.earn_infos[m]).fits() by {
                    assert(c.users[j].earn_infos[m].fits());
                }
            }
        },
        None => {
            let u = new_user(who, nfts);
            if next.fits() {
                assert(next.users[c.users.len() as int].fits());
                assert forall|k: int| 0 <= k < nfts.len() implies (#[trigger] nfts[k]).fits() by {
                    assert(u.staked_nfts[k] == nfts[k]);
                }
            }
            if forall|k: int| 0 <= k < nfts.len() ==> (#[trigger] nfts[k]).fits() {
                assert(u.fits());
                assert forall|m: int| 0 <= m < next.users.len() implies (#[trigger] next.users[m]).fits() by {
                    if m < c.users.len() {
                        assert(c.users[m].fits());
                    }
                }
                assert forall|m: int| 0 <= m < next.airdrop_infos.len() implies (
                #[trigger] next.airdrop_infos[m]).fits() by {
                    assert(c.airdrop_infos[m].fits());
                }
            }
        },
    }
}

/// Whether the outcome of `execute_charge` on these arguments can be held
/// in the machine's numbers.
pub fn charge_fits(storage: &Ledger, info: &MessageInfo, collection_address: &String) -> (ok: bool)
    ensures
        ok == representable(charge_model(storage@, info@, collection_address@)),
{
    proof {
        lemma_ledger_fits(*storage);
    }
    let i = match find_record(&storage.collections, collection_address) {
        None => { return true; },
        Some(i) => i,
    };
    let paid = match must_pay(info, &storage.config.native_token) {
        Ok(paid) => paid,
        Err(_err) => { return true; },
    };
    proof {
        let c = storage@.collections[i as int];
        let after = charge_pool(c, Seq::empty(), paid as nat);
        lemma_put_fits(storage@, i as int, after);
        assert(c.fits());
        if c.airdropable + paid <= u128::MAX {
            assert forall|m: int| 0 <= m < after.users.len() implies (#[trigger] after.users[m]).fits() by {
                assert(c.users[m].fits());
            }
            assert forall|m: int| 0 <= m < after.airdrop_infos.len() implies (
            #[trigger] after.airdrop_infos[m]).fits() by {
                assert(c.airdrop_infos[m].fits());
            }
        }
    }
    storage.collections[i].airdropable.checked_add(paid).is_some()
}

/// Whether the outcome of `execute_charge_token` on these arguments can be
/// held in the machine's numbers.
pub fn charge_token_fits(
    storage: &Ledger,
    env: &Env,
    info: &MessageInfo,
    collection_address: &String,
    charge_amount: u128,
    balance: u128,
) -> (ok: bool)
    ensures
        ok == representable(
            charge_token_model(storage@, env@, info@, collection_address@, charge_amount as nat, balance as nat),
        ),
{
    proof {
        lemma_ledger_fits(*storage);
    }
    let i = match find_record(&storage.collections, collection_address) {
        None => { return true; },
        Some(i) => i,
    };
    if storage.collections[i].cw20_address.as_str().is_empty() {
        return true;
    }
    if balance < charge_amount {
        return true;
    }
    let ghost c = storage@.collections[i as int];
    let ghost after = charge_pool(c, c.cw20_address, charge_amount as nat);
    proof {
        lemma_put_fits(storage@, i as int, after);
        assert(c.fits());
        lemma_position(keys(c.airdrop_infos), c.cw20_address);
    }
    match find_record(&storage.collections[i].airdrop_infos, &storage.collections[i].cw20_address) {
        Some(p) => {
            proof {
                assert(c.airdrop_infos[p as int].fits());
                if after.fits() {
                    assert(after.airdrop_infos[p as int].fits());
                }
                if c.airdrop_infos[p as int].airdropable + charge_amount <= u128::MAX {
                    assert forall|m: int| 0 <= m < after.users.len() implies (#[trigger] after.users[m]).fits() by {
                        assert(c.users[m].fits());
                    }
                    assert forall|m: int| 0 <= m < after.airdrop_infos.len() implies (
                    #[trigger] after.airdrop_infos[m]).fits() by {
                        if m != p {
                            assert(c.airdrop_infos[m].fits());
                        }
                    }
                }
            }
            storage.collections[i].airdrop_infos[p].airdropable.checked_add(charge_amount).is_some()
        },
        None => {
            proof {
                assert forall|m: int| 0 <= m < after.users.len() implies (#[trigger] after.users[m]).fits() by {
                    assert(c.users[m].fits());
                }
                assert forall|m: int| 0 <= m < after.airdrop_infos.len() implies (
                #[trigger] after.airdrop_infos[m]).fits() by {
                    if m < c.airdrop_infos.len() {
                        assert(c.airdrop_infos[m].fits());
                    }
                }
            }
            true
        },
    }
}

/// Whether the outcome of `execute_stake` on these arguments can be held
/// in the machine's numbers.
pub fn stake_fits(
    storage: &Ledger,
    env: &Env,
    info: &MessageInfo,
    collection_address: &String,
    token_id: &Vec<String>,
) -> (ok: bool)
    ensures
        ok == representable(stake_model(storage@, env@, info@, collection_address@, views(token_id@))),
{
    proof {
        lemma_ledger_fits(*storage);
    }
    let i = match find_record(&storage.collections, collection_address) {
        None => { return true; },
        Some(i) => i,
    };
    if !storage.collections[i].is_enabled || !storage.collections[i].is_started {
        return true;
    }
    if storage.config.tx_fee > 0 {
        match must_pay(info, &storage.config.native_token) {
            Ok(paid) => {
                if paid < storage.config.tx_fee {
                    return true;
                }
            },
            Err(_err) => { return true; },
        }
    }
    proof {
        let c = storage@.collections[i as int];
        let nfts = new_nfts(views(token_id@), c.duration + env@.time, c.address);
        let after = CollectionView { users: add_nfts(c.users, info@.sender, nfts), ..c };
        lemma_put_fits(storage@, i as int, after);
        lemma_add_nfts_fits(c, info@.sender, nfts);
        if token_id.len() > 0 {
            assert(nfts[0].lock_time == c.duration + env@.time);
        }
    }
    token_id.len() == 0 || storage.collections[i].duration.checked_add(env.time).is_some()
}

/// Whether the outcome of `execute_receive_nft` on these arguments can be
/// held in the machine's numbers.
pub fn receive_nft_fits(storage: &Ledger, env: &Env, info: &MessageInfo, wrapper: &Cw721ReceiveMsg) -> (ok: bool)
    ensures
        ok == representable(receive_nft_model(storage@, env@, info@, wrapper@)),
{
    proof {
        lemma_ledger_fits(*storage);
    }
    match find_record(&storage.collections, &info.sender) {
        None => { return true; },
        Some(s) => {
            if !storage.collections[s].is_enabled {
                return true;
            }
        },
    }
    match &wrapper.msg {
        NftReceiveMsg::Stake { sender, token_id, collection_address } => {
            let i = match find_record(&storage.collections, collection_address) {
                None => { return true; },
                Some(i) => i,
            };
            if !storage.collections[i].is_started {
                return true;
            }
            if info.sender != *collection_address {
                return true;
            }
            if *sender != wrapper.sender || *token_id != wrapper.token_id {
                return true;
            }
            proof {
                let c = storage@.collections[i as int];
                let nfts = new_nfts(seq![wrapper@.token_id], c.duration + env@.time, c.address);
                let after = CollectionView { users: add_nfts(c.users, wrapper@.sender, nfts), ..c };
                lemma_put_fits(storage@, i as int, after);
                lemma_add_nfts_fits(c, wrapper@.sender, nfts);
                assert(nfts[0].lock_time == c.duration + env@.time);
            }
            storage.collections[i].duration.checked_add(env.time).is_some()
        },
    }
}

/// A user who fits, after a claim, fits if and only if what the user has
/// earned in the token, with what is claimed, can be held in 128 bits.
pub proof fn lemma_pay_out_fits(u: UserInfoView, token: Seq<char>)
    requires
        u.fits(),
    ensures
        pay_out(u, token).fits() <==> earned_of(u, token) + claimable_of(u, token) <= u128::MAX,
{
    let after = pay_out(u, token);
    if token.len() == 0 {
        if u.total_earnd + u.claimable <= u128::MAX {
            assert forall|m: int| 0 <= m < after.earn_infos.len() implies (#[trigger] after.earn_infos[m]).fits() by {
                assert(u.earn_infos[m].fits());
            }
            assert forall|m: int| 0 <= m < after.staked_nfts.len() implies (#[trigger] after.staked_nfts[m]).fits() by {
                assert(u.staked_nfts[m].fits());
            }
        }
    } else {
        lemma_position(keys(u.earn_infos), token);
        match find(u.earn_infos, token) {
            Some(k) => {
                assert(u.earn_infos[k].fits());
                if after.fits() {
                    assert(after.earn_infos[k].fits());
                }
                if u.earn_infos[k].total_earned + u.earn_infos[k].claimable <= u128::MAX {
                    assert forall|m: int| 0 <= m < after.earn_infos.len() implies (
                    #[trigger] after.earn_infos[m]).fits() by {
                        if m != k {
                            assert(u.earn_infos[m].fits());
                        }
                    }
                    assert forall|m: int| 0 <= m < after.staked_nfts.len() implies (
                    #[trigger] after.staked_nfts[m]).fits() by {
                        assert(u.staked_nfts[m].fits());
                    }
                }
            },
            None => {},
        }
    }
}

/// Whether the outcome of `execute_claim` on these arguments can be held
/// in the machine's numbers.
pub fn claim_fits(
    storage: &Ledger,
    info: &MessageInfo,
    collection_address: &String,
    cw20_address: &String,
    balance: u128,
) -> (ok: bool)
    ensures
        ok == representable(claim_model(storage@, info@, collection_address@, cw20_address@, balance as nat)),
{
    proof {
        lemma_ledger_fits(*storage);
    }
    let i = match find_record(&storage.collections, collection_address) {
        None => { return true; },
        Some(i) => i,
    };
    let j = match find_record(&storage.collections[i].users, &info.sender) {
        None => { return true; },
        Some(j) => j,
    };
    let user = &storage.collections[i].users[j];
    let (earned, amount) = if cw20_address.as_str().is_empty() {
        (user.total_earnd, user.claimable)
    } else {
        match find_record(&user.earn_infos, cw20_address) {
            Some(e) => (user.earn_infos[e].total_earned, user.earn_infos[e].claimable),
            None => (0, 0),
        }
    };
    if amount == 0 || balance < amount {
        return true;
    }
    proof {
        let c = storage@.collections[i as int];
        let u = c.users[j as int];
        assert(c.fits());
        assert(u.fits());
        lemma_put_fits(storage@, i as int, CollectionView { users: c.users.update(j as int, pay_out(u, cw20_address@)), ..c });
        lemma_put_user_fits(c, j as int, pay_out(u, cw20_address@));
        lemma_pay_out_fits(u, cw20_address@);
        let msgs = seq![
            crate::rewards::transfer_token_msg(
                crate::rewards::denom_of(storage@.config.native_token, cw20_address@),
                amount as int,
                info@.sender,
            ),
        ];
        assert forall|m: int| 0 <= m < msgs.len() implies (#[trigger] msgs[m]).fits() by {}
    }
    earned.checked_add(amount).is_some()
}

/// A user who fits, after an airdrop, fits if and only if what the user
/// can claim in the token, with the user's share, can be held in 128 bits.
/// A user without a locked NFT has no share.
pub proof fn lemma_airdrop_to_user_fits(u: UserInfoView, token: Seq<char>, per_nft: nat, now: nat, collection: Seq<char>)
    requires
        u.fits(),
    ensures
        airdrop_to_user(u, token, per_nft, now, collection).fits() <==> (locked_nfts(u.staked_nfts, now, collection)
            == 0 || claimable_of(u, token) + per_nft * locked_nfts(u.staked_nfts, now, collection) <= u128::MAX),
{
    let n = locked_nfts(u.staked_nfts, now, collection);
    if n > 0 {
        let marked = UserInfoView { staked_nfts: mark_locked(u.staked_nfts, now, collection), ..u };
        let after = credit(marked, token, per_nft * n);
        assert forall|m: int| 0 <= m < after.staked_nfts.len() implies (#[trigger] after.staked_nfts[m]).fits() by {
            assert(u.staked_nfts[m].fits());
        }
        if token.len() == 0 {
            assert forall|m: int| 0 <= m < after.earn_infos.len() implies (#[trigger] after.earn_infos[m]).fits() by {
                assert(u.earn_infos[m].fits());
            }
        } else {
            lemma_position(keys(u.earn_infos), token);
            match find(u.earn_infos, token) {
                Some(k) => {
                    assert(u.earn_infos[k].fits());
                    if after.fits() {
                        assert(after.earn_infos[k].fits());
                    }
                    if u.earn_infos[k].claimable + per_nft * n <= u128::MAX {
                        assert forall|m: int| 0 <= m < after.earn_infos.len() implies (
                        #[trigger] after.earn_infos[m]).fits() by {
                            if m != k {
                                assert(u.earn_infos[m].fits());
                            }
                        }
                    }
                },
                None => {
                    if after.fits() {
                        assert(after.earn_infos[u.earn_infos.len() as int].fits());
                    }
                    if per_nft * n <= u128::MAX {
                        assert forall|m: int| 0 <= m < after.earn_infos.len() implies (
                        #[trigger] after.earn_infos[m]).fits() by {
                            if m < u.earn_infos.len() {
                                assert(u.earn_infos[m].fits());
                            }
                        }
                    }
                },
            }
        }
    }
}

/// Whether `user` still fits the machine's numbers after an airdrop of
/// `per_nft` of `token` for each locked NFT.
fn airdrop_to_user_fits(user: &UserInfo, token: &String, per_nft: u128, now: u64, collection: &String) -> (ok: bool)
    ensures
        ok == airdrop_to_user(user@, token@, per_nft as nat, now as nat, collection@).fits(),
{
    proof {
        lemma_user_fits(*user);
        lemma_airdrop_to_user_fits(user@, token@, per_nft as nat, now as nat, collection@);
    }
    let count = count_locked_nfts(&user.staked_nfts, now, collection);
    if count == 0 {
        return true;
    }
    let share = match per_nft.checked_mul(count as u128) {
        Some(share) => share,
        None => { return false; },
    };
    let claimable = if token.as_str().is_empty() {
        user.claimable
    } else {
        match find_record(&user.earn_infos, token) {
            Some(e) => user.earn_infos[e].claimable,
            None => 0,
        }
    };
    claimable.checked_add(share).is_some()
}

/// Whether the outcome of `execute_airdrop` on these arguments can be held
/// in the machine's numbers.
pub fn airdrop_fits(
    storage: &Ledger,
    env: &Env,
    info: &MessageInfo,
    collection_address: &String,
    cw20_address: &String,
    airdrop_amount: u128,
) -> (ok: bool)
    ensures
        ok == representable(
            airdrop_model(storage@, env@, info@, collection_address@, cw20_address@, airdrop_amount as nat),
        ),
{
    proof {
        lemma_ledger_fits(*storage);
    }
    let i = match find_record(&storage.collections, collection_address) {
        None => { return true; },
        Some(i) => i,
    };
    let collection = &storage.collections[i];
    if !collection.is_enabled {
        return true;
    }
    if info.sender != collection.owner && info.sender != storage.config.owner {
        return true;
    }
    if airdrop_amount == 0 {
        return true;
    }
    let native = cw20_address.as_str().is_empty();
    let pool = if native {
        None
    } else {
        find_record(&collection.airdrop_infos, cw20_address)
    };
    let total = if native {
        if airdrop_amount > collection.airdropable {
            return true;
        }
        collection.total_airdrop
    } else {
        match pool {
            Some(p) => {
                if collection.airdrop_infos[p].airdropable < airdrop_amount {
                    return true;
                }
                collection.airdrop_infos[p].total_airdrop
            },
            None => { return true; },
        }
    };
    let nft_count = count_locked(collection, env.time);
    if nft_count == 0 || airdrop_amount < nft_count {
        return true;
    }
    let airdrop = airdrop_amount / nft_count;
    let ghost c = storage@.collections[i as int];
    let ghost after = airdrop_collection(c, cw20_address@, airdrop_amount as nat, env@.time);
    let ghost drawn = draw_pool(c, cw20_address@, airdrop_amount as nat);
    let ghost wanted = airdrop_to_users(c.users, cw20_address@, airdrop as nat, env@.time, c.address);
    proof {
        lemma_put_fits(storage@, i as int, after);
        assert(c.fits());
        assert(after.users == wanted);
        lemma_position(keys(c.airdrop_infos), cw20_address@);
        // The pool fits if and only if its new total does.
        assert((forall|m: int| 0 <= m < after.airdrop_infos.len() ==> (#[trigger] after.airdrop_infos[m]).fits())
            && after.total_airdrop <= u128::MAX <==> total + airdrop_amount <= u128::MAX) by {
            if native {
                assert forall|m: int| 0 <= m < after.airdrop_infos.len() implies (
                #[trigger] after.airdrop_infos[m]).fits() by {
                    assert(c.airdrop_infos[m].fits());
                }
            } else {
                let p = pool->Some_0 as int;
                assert(c.airdrop_infos[p].fits());
                if total + airdrop_amount <= u128::MAX {
                    assert forall|m: int| 0 <= m < after.airdrop_infos.len() implies (
                    #[trigger] after.airdrop_infos[m]).fits() by {
                        if m != p {
                            assert(c.airdrop_infos[m].fits());
                        }
                    }
                }
                if forall|m: int| 0 <= m < after.airdrop_infos.len() ==> (#[trigger] after.airdrop_infos[m]).fits() {
                    assert(after.airdrop_infos[p].fits());
                }
            }
        }
    }
    let ghost answer = representable(
        airdrop_model(storage@, env@, info@, collection_address@, cw20_address@, airdrop_amount as nat),
    );
    assert(answer <==> total + airdrop_amount <= u128::MAX && forall|m: int|
        0 <= m < wanted.len() ==> (#[trigger] wanted[m]).fits());
    if total.checked_add(airdrop_amount).is_none() {
        return false;
    }
    let mut j: usize = 0;
    while j < collection.users.len()
        invariant
            j <= collection.users.len(),
            collection@ == c,
            c.users.len() == wanted.len(),
            wanted == airdrop_to_users(c.users, cw20_address@, airdrop as nat, env@.time, c.address),
            c.address == collection_address@,
            answer == representable(
                airdrop_model(storage@, env@, info@, collection_address@, cw20_address@, airdrop_amount as nat),
            ),
            answer <==> forall|m: int| 0 <= m < wanted.len() ==> (#[trigger] wanted[m]).fits(),
            forall|m: int| 0 <= m < j ==> (#[trigger] wanted[m]).fits(),
        decreases collection.users.len() - j,
    {
        assert(collection.users@[j as int]@ == c.users[j as int]);
        if !airdrop_to_user_fits(&collection.users[j], cw20_address, airdrop, env.time, collection_address) {
            assert(!wanted[j as int].fits());
            return false;
        }
        j += 1;
    }
    true
}

/// Whether the outcome of `execute_unstake` on these arguments can be held
/// in the machine's numbers.
pub fn unstake_fits(
    storage: &Ledger,
    env: &Env,
    info: &MessageInfo,
    collection_address: &String,
    token_id: &Vec<String>,
) -> (ok: bool)
    ensures
        ok == representable(unstake_model(storage@, env@, info@, collection_address@, views(token_id@))),
{
    proof {
        lemma_ledger_fits(*storage);
    }
    let i = match find_record(&storage.collections, collection_address) {
        None => { return true; },
        Some(i) => i,
    };
    let collection = &storage.collections[i];
    let j = match find_record(&collection.users, &info.sender) {
        None => { return true; },
        Some(j) => j,
    };
    if collection.users[j].staked_nfts.len() == 0 {
        return true;
    }
    let (nfts, early) = match unstake_scan(&collection.users[j].staked_nfts, token_id, env.time, &collection.address) {
        Ok(left) => left,
        Err(_e) => { return true; },
    };
    let total_fee = match (early as u128).checked_mul(collection.unstaking_fee) {
        None => { return true; },
        Some(total_fee) => total_fee,
    };
    if total_fee > 0 {
        match must_pay(info, &storage.config.native_token) {
            Ok(receive_fee) => {
                if receive_fee < total_fee {
                    return true;
                }
            },
            Err(_err) => { return true; },
        }
    }
    let ghost c = storage@.collections[i as int];
    let ghost u = c.users[j as int];
    let ghost ids = views(token_id@);
    let ghost left = unstake_nfts(u.staked_nfts, ids, ids.len(), env@.time, c.address)->Ok_0;
    let ghost after = UserInfoView { staked_nfts: left.nfts, ..u };
    let ghost transfers = transfer_nft_msgs(c.address, ids, info@.sender);
    let ghost fees = fee_msgs(storage@.config, c, total_fee as nat);
    proof {
        assert(c.fits());
        assert(u.fits());
        lemma_put_fits(storage@, i as int, CollectionView { users: c.users.update(j as int, after), ..c });
        lemma_put_user_fits(c, j as int, after);
        lemma_unstake_leaves_fitting(u.staked_nfts, ids, ids.len(), env@.time, c.address);
        assert(after.fits()) by {
            assert forall|m: int| 0 <= m < after.earn_infos.len() implies (#[trigger] after.earn_infos[m]).fits() by {
                assert(u.earn_infos[m].fits());
            }
        }
        let all = transfers + fees;
        assert((forall|m: int| 0 <= m < all.len() ==> (#[trigger] all[m]).fits()) <==> (total_fee == 0 || owner_fee(
            total_fee as nat,
            c.unstaking_fee_percent,
        ) <= total_fee)) by {
            if total_fee > 0 {
                if forall|m: int| 0 <= m < all.len() ==> (#[trigger] all[m]).fits() {
                    assert(all[all.len() - 1].fits());
                    assert(all[all.len() - 1] == fees[fees.len() - 1]);
                }
                if owner_fee(total_fee as nat, c.unstaking_fee_percent) <= total_fee {
                    assert forall|m: int| 0 <= m < all.len() implies (#[trigger] all[m]).fits() by {
                        if m >= transfers.len() {
                            assert(all[m] == fees[m - transfers.len()]);
                        }
                    }
                }
            } else {
                assert(all =~= transfers);
            }
        }
    }
    let ghost next = put_collection(
        storage@,
        i as int,
        CollectionView { users: c.users.update(j as int, after), ..c },
    );
    assert(left.early * c.unstaking_fee == total_fee);
    assert(unstake_model(storage@, env@, info@, collection_address@, ids) == Ok::<_, crate::error::ContractError>(
        (next, transfers + fees),
    ));
    assert(next.fits());
    let ghost want = unstake_model(storage@, env@, info@, collection_address@, ids);
    let ghost every = transfers + fees;
    assert(want matches Ok((_, msgs)) && msgs == every);
    assert(representable(want) <==> forall|m: int| 0 <= m < every.len() ==> (#[trigger] every[m]).fits());
    assert(representable(want) <==> (total_fee == 0 || owner_fee(total_fee as nat, c.unstaking_fee_percent)
        <= total_fee));
    if total_fee == 0 {
        return true;
    }
    proof {
        crate::staking::lemma_owner_fee_parts(total_fee as nat, collection.unstaking_fee_percent as nat);
    }
    let percent = collection.unstaking_fee_percent as u128;
    let hundreds = total_fee / 100;
    let rest = total_fee % 100;
    assert(rest * percent <= 100 * 0xffff_ffff_ffff_ffff) by (nonlinear_arith)
        requires
            0 <= rest < 100,
            0 <= percent <= 0xffff_ffff_ffff_ffff,
    ;
    proof {
        let due = owner_fee(total_fee as nat, c.unstaking_fee_percent);
        assert(hundreds * percent == (total_fee as nat / 100) * c.unstaking_fee_percent);
        assert(rest * percent == (total_fee as nat % 100) * c.unstaking_fee_percent);
        assert(due == hundreds * percent + (rest * percent) / 100);
        assert(0 <= rest * percent) by (nonlinear_arith)
            requires
                0 <= rest,
                0 <= percent,
        ;
    }
    let whole = match hundreds.checked_mul(percent) {
        Some(whole) => whole,
        None => { return false; },
    };
    match whole.checked_add(rest * percent / 100) {
        Some(owner_fee) => owner_fee <= total_fee,
        None => false,
    }
}

/// Whether the outcome of `execute_restake` on these arguments can be held
/// in the machine's numbers.
pub fn restake_fits(
    storage: &Ledger,
    env: &Env,
    info: &MessageInfo,
    collection_address: &String,
    token_id: &Vec<String>,
) -> (ok: bool)
    ensures
        ok == representable(restake_model(storage@, env@, info@, collection_address@, views(token_id@))),
{
    proof {
        lemma_ledger_fits(*storage);
    }
    let i = match find_record(&storage.collections, collection_address) {
        None => { return true; },
        Some(i) => i,
    };
    let collection = &storage.collections[i];
    if !collection.is_enabled || !collection.is_started {
        return true;
    }
    if storage.config.tx_fee > 0 {
        match must_pay(info, &storage.config.native_token) {
            Ok(paid) => {
                if paid < storage.config.tx_fee {
                    return true;
                }
            },
            Err(_err) => { return true; },
        }
    }
    let j = match find_record(&collection.users, &info.sender) {
        None => { return true; },
        Some(j) => j,
    };
    if collection.users[j].staked_nfts.len() == 0 {
        return true;
    }
    let ghost c = storage@.collections[i as int];
    let ghost u = c.users[j as int];
    let ghost ids = views(token_id@);
    let any = match restake_check(
        &collection.users[j].staked_nfts,
        token_id,
        env.time,
        Ghost(c.duration),
        &collection.address,
    ) {
        Ok(any) => any,
        Err(_e) => { return true; },
    };
    proof {
        let last = restake_nfts(u.staked_nfts, ids, ids.len(), env@.time, c.duration, c.address)->Ok_0;
        let after = UserInfoView { staked_nfts: last, ..u };
        assert(c.fits());
        assert(u.fits());
        lemma_put_fits(storage@, i as int, CollectionView { users: c.users.update(j as int, after), ..c });
        lemma_put_user_fits(c, j as int, after);
        lemma_restake_keeps_locked(u.staked_nfts, ids, ids.len(), env@.time, c.duration, c.address);
        assert forall|m: int| 0 <= m < after.earn_infos.len() implies (#[trigger] after.earn_infos[m]).fits() by {
            assert(u.earn_infos[m].fits());
        }
        if any {
            lemma_something_renewed(u.staked_nfts, ids, ids.len(), env@.time, c.duration, c.address);
            let k = choose|k: int| 0 <= k < u.staked_nfts.len() && (#[trigger] last[k]).lock_time == env@.time + c.duration;
            if after.fits() {
                assert(after.staked_nfts[k].fits());
            }
        } else {
            lemma_nothing_renewed(u.staked_nfts, ids, ids.len(), env@.time, c.duration, c.address);
        }
        if env@.time + c.duration <= u64::MAX {
            assert forall|m: int| 0 <= m < last.len() implies (#[trigger] last[m]).fits() by {
                assert(u.staked_nfts[m].fits());
            }
        }
    }
    !any || collection.duration.checked_add(env.time).is_some()
}

/// A call that only sets terms, opens a round, or pays out of a pool has
/// an outcome that can be held in the machine's numbers, whatever its
/// arguments.
pub proof fn lemma_plain_calls_fit(storage: Ledger, env: Env, info: MessageInfo, msg: ExecuteMsg, balance: u128)
    requires
        msg is UpdateOwner || msg is UpdateFeeAddress || msg is UpdateTxFee || msg is RegisteCollection
            || msg is UpdateCollectionFee || msg is UpdateCollectionState || msg is UpdateCollection
            || msg is Withdraw || msg is WithdrawAirdrop || msg is AirdropRestart || msg is TransferNft,
    ensures
        representable(execute_model(storage@, env@, info@, msg, balance as nat)),
{
    lemma_ledger_fits(storage);
    let l = storage@;
    let want = execute_model(l, env@, info@, msg, balance as nat);
    if want is Ok {
        let (next, msgs) = want->Ok_0;
        match msg {
            ExecuteMsg::UpdateOwner { .. } | ExecuteMsg::UpdateFeeAddress { .. } | ExecuteMsg::UpdateTxFee { .. } => {
                assert(next.collections == l.collections);
            },
            ExecuteMsg::RegisteCollection {
                collection_address,
                owner,
                new_unstaking_fee,
                new_unstaking_fee_percent,
                cw20_address,
            } => {
                let fresh = crate::model::fresh_collection(
                    collection_address@,
                    owner@,
                    cw20_address@,
                    new_unstaking_fee as nat,
                    new_unstaking_fee_percent as nat,
                );
                assert(fresh.fits());
                lemma_position(keys(l.collections), collection_address@);
                match find(l.collections, collection_address@) {
                    Some(i) => {
                        lemma_put_fits(l, i, fresh);
                    },
                    None => {
                        assert forall|m: int| 0 <= m < next.collections.len() implies (
                        #[trigger] next.collections[m]).fits() by {
                            if m < l.collections.len() {
                                assert(l.collections[m].fits());
                            }
                        }
                    },
                }
            },
            ExecuteMsg::UpdateCollectionFee { collection_address, .. }
            | ExecuteMsg::UpdateCollectionState { collection_address, .. }
            | ExecuteMsg::UpdateCollection { collection_address, .. }
            | ExecuteMsg::AirdropRestart { collection_address } => {
                let i = find(l.collections, collection_address@)->Some_0;
                lemma_position(keys(l.collections), collection_address@);
                let c = l.collections[i];
                let after = next.collections[i];
                lemma_put_fits(l, i, after);
                assert(c.fits());
                assert(after.users == c.users);
                assert(after.airdrop_infos == c.airdrop_infos);
                assert(next == put_collection(l, i, after));
            },
            ExecuteMsg::Withdraw { .. } | ExecuteMsg::TransferNft { .. } => {
                assert(next == l);
            },
            ExecuteMsg::WithdrawAirdrop { collection_address, cw20_address, .. } => {
                let i = find(l.collections, collection_address@)->Some_0;
                lemma_position(keys(l.collections), collection_address@);
                let c = l.collections[i];
                let after = next.collections[i];
                lemma_put_fits(l, i, after);
                assert(c.fits());
                assert(after.users == c.users);
                lemma_position(keys(c.airdrop_infos), cw20_address@);
                assert forall|m: int| 0 <= m < after.airdrop_infos.len() implies (
                #[trigger] after.airdrop_infos[m]).fits() by {
                    assert(c.airdrop_infos[m].fits());
                }
                assert(next == put_collection(l, i, after));
            },
            _ => {},
        }
    }
}

/// Whether the outcome of `execute` on these arguments can be held in the
/// machine's numbers.
pub fn execute_fits(storage: &Ledger, env: &Env, info: &MessageInfo, msg: &ExecuteMsg, balance: u128) -> (ok: bool)
    ensures
        ok == representable(execute_model(storage@, env@, info@, *msg, balance as nat)),
{
    match msg {
        ExecuteMsg::Charge { collection_address } => charge_fits(storage, info, collection_address),
        ExecuteMsg::ChargeToken { collection_address, charge_amount } => charge_token_fits(
            storage,
            env,
            info,
            collection_address,
            *charge_amount,
            balance,
        ),
        ExecuteMsg::Airdrop { collection_address, cw20_address, airdrop_amount } => airdrop_fits(
            storage,
            env,
            info,
            collection_address,
            cw20_address,
            *airdrop_amount,
        ),
        ExecuteMsg::Restake { collection_address, token_id } => restake_fits(
            storage,
            env,
            info,
            collection_address,
            token_id,
        ),
        ExecuteMsg::Unstake { collection_address, token_id } => unstake_fits(
            storage,
            env,
            info,
            collection_address,
            token_id,
        ),
        ExecuteMsg::Staking { collection_address, token_id } => stake_fits(
            storage,
            env,
            info,
            collection_address,
            token_id,
        ),
        ExecuteMsg::Claim { collection_address, cw20_address } => claim_fits(
            storage,
            info,
            collection_address,
            cw20_address,
            balance,
        ),
        _ => {
            proof {
                lemma_plain_calls_fit(*storage, *env, *info, *msg, balance);
            }
            true
        },
    }
}

} // verus!
