//! What holds of the ledger whatever is called on it.
use vstd::multiset::Multiset;
use vstd::prelude::*;
use crate::batch::{lemma_restake_keeps_ids, lemma_unstake_leaves_held};
use crate::contract::{execute_model, instantiate_model};
use crate::host::{EnvView, MessageInfoView};
use crate::lookup::{find, is_first, keys, lemma_position, lemma_position_is, position};
use crate::model::{Transition, put_collection};
use crate::msg::{Cw721ReceiveView, ExecuteMsg, InstantiateMsg};
use crate::rewards::{
    airdrop_collection, airdrop_model, airdrop_to_user, airdrop_to_users, claim_model, claimable_of,
    credit, denom_of, draw_pool, earned_of, locked_count, locked_nfts, locked_of_users, pay_out,
    pool_available, pool_total, transfer_token_msg,
};
use crate::staking::{
    add_nfts, collection_fee, new_nfts, owner_fee, receive_nft_model, restake_model, restake_nfts,
    stake_model, unstake_model, unstake_nfts,
};
use crate::state::{CollectionView, LedgerView, NftInfoView, UserInfoView};

verus! {

/// A key that occurs nowhere in a list is first found behind it once it
/// has been appended.
pub proof fn lemma_position_appended(list: Seq<Seq<char>>, k: Seq<char>)
    requires
        position(list, k) is None,
    ensures
        position(list.push(k), k) == Some(list.len() as int),
{
    lemma_position(list, k);
    assert(is_first(list.push(k), k, list.len() as int));
    lemma_position_is(list.push(k), k, list.len() as int);
}

/// The two shares of an unstaking fee make up the fee exactly, and the
/// ledger's share is the given number of hundredths of it, rounded down.
/// With a share of at most a hundred hundredths, neither part is negative.
pub proof fn lemma_fee_split(total_fee: nat, percent: nat)
    ensures
        owner_fee(total_fee, percent) + collection_fee(total_fee, percent) == total_fee,
        owner_fee(total_fee, percent) == (total_fee * percent) / 100,
        percent <= 100 ==> 0 <= collection_fee(total_fee, percent) <= total_fee,
{
    if percent <= 100 {
        assert(total_fee * percent <= total_fee * 100) by (nonlinear_arith)
            requires
                percent <= 100,
        ;
    }
}

/// The ids of the NFTs that `who` has staked in the collection, each as
/// often as it is staked.
pub open spec fn staked_ids(c: CollectionView, who: Seq<char>) -> Multiset<Seq<char>> {
    match find(c.users, who) {
        Some(j) => keys(c.users[j].staked_nfts).to_multiset(),
        None => Multiset::empty(),
    }
}

/// The ids of the NFTs that `who` has staked in the collection at
/// `collection_address`; none where no such collection is registered.
pub open spec fn ledger_staked_ids(l: LedgerView, collection_address: Seq<char>, who: Seq<char>) -> Multiset<
    Seq<char>,
> {
    match find(l.collections, collection_address) {
        Some(i) => staked_ids(l.collections[i], who),
        None => Multiset::empty(),
    }
}

/// A collection that is put back under its own address is found where it
/// was.
pub proof fn lemma_put_keeps_place(l: LedgerView, i: int, c: CollectionView, k: Seq<char>)
    requires
        0 <= i < l.collections.len(),
        c.address == l.collections[i].address,
    ensures
        find(put_collection(l, i, c).collections, k) == find(l.collections, k),
{
    assert(keys(put_collection(l, i, c).collections) =~= keys(l.collections));
}

/// Staking adds the staked ids to those that the caller holds in the
/// collection, once each, and leaves what anybody else holds as it is.
pub proof fn lemma_stake_adds_ids(
    l: LedgerView,
    env: EnvView,
    info: MessageInfoView,
    collection_address: Seq<char>,
    token_id: Seq<Seq<char>>,
    who: Seq<char>,
)
    requires
        stake_model(l, env, info, collection_address, token_id) is Ok,
    ensures
        ({
            let next = stake_model(l, env, info, collection_address, token_id)->Ok_0.0;
            ledger_staked_ids(next, collection_address, who) == if who == info.sender {
                ledger_staked_ids(l, collection_address, who).add(token_id.to_multiset())
            } else {
                ledger_staked_ids(l, collection_address, who)
            }
        }),
{
    let next = stake_model(l, env, info, collection_address, token_id)->Ok_0.0;
    let i = find(l.collections, collection_address)->Some_0;
    lemma_position(keys(l.collections), collection_address);
    let c = l.collections[i];
    let nfts = new_nfts(token_id, c.duration + env.time, c.address);
    let after = CollectionView { users: add_nfts(c.users, info.sender, nfts), ..c };
    lemma_put_keeps_place(l, i, after, collection_address);
    assert(next.collections[i] == after);
    lemma_added_ids(c.users, info.sender, nfts, who);
    assert(keys(nfts) =~= token_id);
}

/// What `add_nfts` does to the ids that `who` holds.
proof fn lemma_added_ids(users: Seq<UserInfoView>, staker: Seq<char>, nfts: Seq<NftInfoView>, who: Seq<char>)
    ensures
        ({
            let after = add_nfts(users, staker, nfts);
            let before_ids = match find(users, who) {
                Some(j) => keys(users[j].staked_nfts).to_multiset(),
                None => Multiset::empty(),
            };
            let after_ids = match find(after, who) {
                Some(j) => keys(after[j].staked_nfts).to_multiset(),
                None => Multiset::empty(),
            };
            after_ids == if who == staker {
                before_ids.add(keys(nfts).to_multiset())
            } else {
                before_ids
            }
        }),
{
    broadcast use vstd::multiset::group_multiset_axioms;

    let after = add_nfts(users, staker, nfts);
    lemma_position(keys(users), staker);
    lemma_position(keys(users), who);
    match find(users, staker) {
        Some(j) => {
            assert(keys(after) =~= keys(users));
            if who == staker {
                assert(keys(users[j].staked_nfts + nfts) =~= keys(users[j].staked_nfts) + keys(nfts));
                vstd::seq_lib::lemma_multiset_commutative(keys(users[j].staked_nfts), keys(nfts));
            }
        },
        None => {
            assert(keys(after) =~= keys(users).push(staker));
            if who == staker {
                lemma_position_appended(keys(users), staker);
                assert(Multiset::<Seq<char>>::empty().add(keys(nfts).to_multiset()) =~= keys(nfts).to_multiset());
            } else {
                match find(users, who) {
                    Some(m) => {
                        assert(is_first(keys(after), who, m));
                        lemma_position_is(keys(after), who, m);
                    },
                    None => {
                        lemma_position(keys(after), who);
                        if position(keys(after), who) is Some {
                            let m = position(keys(after), who)->Some_0;
                            assert(keys(after)[m] == who);
                            assert(m < users.len());
                            assert(keys(users)[m] == who);
                        }
                    },
                }
            }
        },
    }
}

/// What unstaking the first `n` ids takes out is what the participant
/// held: nothing is unstaked that was not staked, and what is left is what
/// was held less those ids, once each, so one NFT less for each id.
pub proof fn lemma_unstaked_ids(nfts: Seq<NftInfoView>, ids: Seq<Seq<char>>, n: nat, now: nat, collection: Seq<char>)
    requires
        n <= ids.len(),
        unstake_nfts(nfts, ids, n, now, collection) is Ok,
    ensures
        ({
            let left = unstake_nfts(nfts, ids, n, now, collection)->Ok_0.nfts;
            &&& ids.take(n as int).to_multiset().subset_of(keys(nfts).to_multiset())
            &&& keys(left).to_multiset() == keys(nfts).to_multiset().sub(ids.take(n as int).to_multiset())
            &&& left.len() + n == nfts.len()
        }),
    decreases n,
{
    broadcast use vstd::multiset::group_multiset_axioms;

    if n == 0 {
        assert(ids.take(0) =~= Seq::<Seq<char>>::empty());
        ids.take(0).to_multiset_ensures();
        vstd::multiset::lemma_multiset_empty_len(ids.take(0).to_multiset());
        assert(ids.take(0).to_multiset() =~= Multiset::<Seq<char>>::empty());
        assert(keys(nfts).to_multiset().sub(Multiset::<Seq<char>>::empty()) =~= keys(nfts).to_multiset());
    } else {
        let so_far = unstake_nfts(nfts, ids, (n - 1) as nat, now, collection)->Ok_0;
        lemma_unstaked_ids(nfts, ids, (n - 1) as nat, now, collection);
        let id = ids[n - 1];
        let k = find(so_far.nfts, id)->Some_0;
        lemma_position(keys(so_far.nfts), id);
        let left = unstake_nfts(nfts, ids, n, now, collection)->Ok_0.nfts;
        assert(left == so_far.nfts.remove(k));
        assert(keys(left) =~= keys(so_far.nfts).remove(k));
        vstd::seq_lib::to_multiset_remove(keys(so_far.nfts), k);
        assert(ids.take(n as int) =~= ids.take(n - 1).push(id));
        vstd::seq_lib::to_multiset_build(ids.take(n - 1), id);
        let held = keys(nfts).to_multiset();
        let gone = ids.take(n - 1).to_multiset();
        keys(so_far.nfts).to_multiset_ensures();
        assert(keys(so_far.nfts).contains(id));
        assert(held.sub(gone).count(id) > 0);
        assert(held.sub(gone).remove(id) =~= held.sub(gone.insert(id)));
        assert(gone.insert(id).subset_of(held)) by {
            assert forall|v: Seq<char>| gone.insert(id).count(v) <= held.count(v) by {
                assert(gone.count(v) <= held.count(v));
            }
        }
    }
}

/// Unstaking takes the unstaked ids from those that the caller holds in
/// the collection, once each, and leaves what anybody else holds as it is.
/// Only ids that the caller holds can be unstaked, and the caller holds one
/// NFT less for each id.
pub proof fn lemma_unstake_removes_ids(
    l: LedgerView,
    env: EnvView,
    info: MessageInfoView,
    collection_address: Seq<char>,
    token_id: Seq<Seq<char>>,
    who: Seq<char>,
)
    requires
        unstake_model(l, env, info, collection_address, token_id) is Ok,
    ensures
        ({
            let next = unstake_model(l, env, info, collection_address, token_id)->Ok_0.0;
            &&& token_id.to_multiset().subset_of(ledger_staked_ids(l, collection_address, info.sender))
            &&& ledger_staked_ids(next, collection_address, who) == if who == info.sender {
                ledger_staked_ids(l, collection_address, who).sub(token_id.to_multiset())
            } else {
                ledger_staked_ids(l, collection_address, who)
            }
            &&& ledger_staked_ids(next, collection_address, info.sender).len() + token_id.len()
                == ledger_staked_ids(l, collection_address, info.sender).len()
        }),
{
    let next = unstake_model(l, env, info, collection_address, token_id)->Ok_0.0;
    let i = find(l.collections, collection_address)->Some_0;
    lemma_position(keys(l.collections), collection_address);
    let c = l.collections[i];
    let j = find(c.users, info.sender)->Some_0;
    lemma_position(keys(c.users), info.sender);
    let left = unstake_nfts(c.users[j].staked_nfts, token_id, token_id.len(), env.time, c.address)->Ok_0;
    let users = c.users.update(j, UserInfoView { staked_nfts: left.nfts, ..c.users[j] });
    let after = CollectionView { users, ..c };
    lemma_put_keeps_place(l, i, after, collection_address);
    assert(next.collections[i] == after);
    assert(keys(users) =~= keys(c.users));
    lemma_unstaked_ids(c.users[j].staked_nfts, token_id, token_id.len(), env.time, c.address);
    assert(token_id.take(token_id.len() as int) =~= token_id);
    lemma_position(keys(c.users), who);
    if who != info.sender && find(c.users, who) is Some {
        assert(find(c.users, who)->Some_0 != j);
    }
    assert(ledger_staked_ids(next, collection_address, info.sender) == keys(left.nfts).to_multiset());
    assert(ledger_staked_ids(l, collection_address, info.sender) == keys(c.users[j].staked_nfts).to_multiset());
    vstd::seq_lib::to_multiset_len(keys(left.nfts));
    vstd::seq_lib::to_multiset_len(keys(c.users[j].staked_nfts));
}

/// One call of a participant that stakes or unstakes a batch of NFTs.
pub enum StakeCall {
    Stake { env: EnvView, info: MessageInfoView, token_id: Seq<Seq<char>> },
    Unstake { env: EnvView, info: MessageInfoView, token_id: Seq<Seq<char>> },
}

impl StakeCall {
    /// Who makes the call.
    pub open spec fn sender(self) -> Seq<char> {
        match self {
            StakeCall::Stake { info, .. } => info.sender,
            StakeCall::Unstake { info, .. } => info.sender,
        }
    }

    /// What the call does to the ledger.
    pub open spec fn outcome(self, l: LedgerView, collection_address: Seq<char>) -> Transition {
        match self {
            StakeCall::Stake { env, info, token_id } => stake_model(l, env, info, collection_address, token_id),
            StakeCall::Unstake { env, info, token_id } => unstake_model(l, env, info, collection_address, token_id),
        }
    }

    /// What the call does to the ids that its sender holds.
    pub open spec fn net(self, held: Multiset<Seq<char>>) -> Multiset<Seq<char>> {
        match self {
            StakeCall::Stake { token_id, .. } => held.add(token_id.to_multiset()),
            StakeCall::Unstake { token_id, .. } => held.sub(token_id.to_multiset()),
        }
    }
}

/// The ledger after the first `n` of `calls` on the collection, one after
/// the other; nothing if one of them is refused.
pub open spec fn replay(l: LedgerView, collection_address: Seq<char>, calls: Seq<StakeCall>, n: nat) -> Option<
    LedgerView,
>
    decreases n,
{
    if n == 0 {
        Some(l)
    } else {
        match replay(l, collection_address, calls, (n - 1) as nat) {
            None => None,
            Some(so_far) => match calls[n - 1].outcome(so_far, collection_address) {
                Ok((next, _)) => Some(next),
                Err(_) => None,
            },
        }
    }
}

/// The ids that are held after the first `n` of `calls`, counted from what
/// was held before: each staked id once more, each unstaked id once less.
pub open spec fn net_staked(held: Multiset<Seq<char>>, calls: Seq<StakeCall>, n: nat) -> Multiset<Seq<char>>
    decreases n,
{
    if n == 0 {
        held
    } else {
        calls[n - 1].net(net_staked(held, calls, (n - 1) as nat))
    }
}

/// After any run of stake and unstake calls of one participant on one
/// collection, the participant holds there exactly the net of what the calls
/// staked and unstaked.
pub proof fn lemma_replay_holds_net(
    l: LedgerView,
    collection_address: Seq<char>,
    who: Seq<char>,
    calls: Seq<StakeCall>,
    n: nat,
)
    requires
        n <= calls.len(),
        forall|m: int| 0 <= m < n ==> (#[trigger] calls[m]).sender() == who,
        replay(l, collection_address, calls, n) is Some,
    ensures
        ledger_staked_ids(replay(l, collection_address, calls, n)->Some_0, collection_address, who) == net_staked(
            ledger_staked_ids(l, collection_address, who),
            calls,
            n,
        ),
    decreases n,
{
    if n > 0 {
        lemma_replay_holds_net(l, collection_address, who, calls, (n - 1) as nat);
        let so_far = replay(l, collection_address, calls, (n - 1) as nat)->Some_0;
        assert(calls[n - 1].sender() == who);
        match calls[n - 1] {
            StakeCall::Stake { env, info, token_id } => {
                lemma_stake_adds_ids(so_far, env, info, collection_address, token_id, who);
            },
            StakeCall::Unstake { env, info, token_id } => {
                lemma_unstake_removes_ids(so_far, env, info, collection_address, token_id, who);
            },
        }
    }
}

/// What the first `n` users can claim in `token`, taken together.
pub open spec fn claimable_among(users: Seq<UserInfoView>, token: Seq<char>, n: nat) -> nat
    decreases n,
{
    if n == 0 {
        0
    } else {
        claimable_among(users, token, (n - 1) as nat) + claimable_of(users[n - 1], token)
    }
}

/// What all the participants of the collection can claim in `token`,
/// taken together.
pub open spec fn total_claimable(c: CollectionView, token: Seq<char>) -> nat {
    claimable_among(c.users, token, c.users.len())
}

/// A credit raises what the user can claim in the token by its amount.
pub proof fn lemma_credit_claimable(u: UserInfoView, token: Seq<char>, amount: nat)
    ensures
        claimable_of(credit(u, token, amount), token) == claimable_of(u, token) + amount,
{
    if token.len() != 0 {
        lemma_position(keys(u.earn_infos), token);
        match find(u.earn_infos, token) {
            Some(k) => {
                assert(keys(credit(u, token, amount).earn_infos) =~= keys(u.earn_infos));
            },
            None => {
                assert(keys(credit(u, token, amount).earn_infos) =~= keys(u.earn_infos).push(token));
                lemma_position_appended(keys(u.earn_infos), token);
            },
        }
    }
}

/// An airdrop raises what the user can claim by the amount per NFT times
/// the number of NFTs that the user has locked.
pub proof fn lemma_airdrop_to_user_claimable(
    u: UserInfoView,
    token: Seq<char>,
    per_nft: nat,
    now: nat,
    collection: Seq<char>,
)
    ensures
        claimable_of(airdrop_to_user(u, token, per_nft, now, collection), token) == claimable_of(u, token) + per_nft
            * locked_nfts(u.staked_nfts, now, collection),
{
    let n = locked_nfts(u.staked_nfts, now, collection);
    if n == 0 {
        assert(per_nft * n == 0) by (nonlinear_arith)
            requires
                n == 0,
        ;
    } else {
        let marked = UserInfoView { staked_nfts: crate::rewards::mark_locked(u.staked_nfts, now, collection), ..u };
        lemma_credit_claimable(marked, token, per_nft * n);
    }
}

/// An airdrop raises what the first `n` users can claim, taken together,
/// by the amount per NFT times the number of NFTs that they have locked.
pub proof fn lemma_airdrop_to_users_claimable(
    users: Seq<UserInfoView>,
    token: Seq<char>,
    per_nft: nat,
    now: nat,
    collection: Seq<char>,
    n: nat,
)
    requires
        n <= users.len(),
    ensures
        claimable_among(airdrop_to_users(users, token, per_nft, now, collection), token, n) == claimable_among(
            users,
            token,
            n,
        ) + per_nft * locked_of_users(users, now, collection, n),
    decreases n,
{
    if n == 0 {
        assert(per_nft * 0 == 0) by (nonlinear_arith);
    } else {
        lemma_airdrop_to_users_claimable(users, token, per_nft, now, collection, (n - 1) as nat);
        lemma_airdrop_to_user_claimable(users[n - 1], token, per_nft, now, collection);
        let before = locked_of_users(users, now, collection, (n - 1) as nat);
        let here = locked_nfts(users[n - 1].staked_nfts, now, collection);
        assert(per_nft * (before + here) == per_nft * before + per_nft * here) by (nonlinear_arith);
    }
}

/// Airdrop conservation. After an airdrop of `airdrop_amount` among
/// `locked` locked NFTs, each participant can claim `airdrop_amount / locked`
/// more for each NFT that they have locked, and all of them together
/// `airdrop_amount / locked` times `locked` more than before: that is
/// `airdrop_amount` less what the division leaves over, which nobody is
/// credited with. The pool holds `airdrop_amount` less, its total is
/// `airdrop_amount` higher, and the round is closed. Nothing is instructed,
/// and the pools and balances of every other currency stay as they were.
pub proof fn lemma_airdrop_conserves(
    l: LedgerView,
    env: EnvView,
    info: MessageInfoView,
    collection_address: Seq<char>,
    cw20_address: Seq<char>,
    airdrop_amount: nat,
)
    requires
        airdrop_model(l, env, info, collection_address, cw20_address, airdrop_amount) is Ok,
    ensures
        ({
            let next = airdrop_model(l, env, info, collection_address, cw20_address, airdrop_amount)->Ok_0.0;
            let i = find(l.collections, collection_address)->Some_0;
            let before = l.collections[i];
            let after = next.collections[i];
            let locked = locked_count(before, env.time);
            &&& find(l.collections, collection_address) is Some
            &&& 0 < locked <= airdrop_amount
            &&& airdrop_model(l, env, info, collection_address, cw20_address, airdrop_amount)->Ok_0.1.len() == 0
            &&& after.users.len() == before.users.len()
            &&& forall|j: int|
                0 <= j < before.users.len() ==> claimable_of(#[trigger] after.users[j], cw20_address)
                    == claimable_of(before.users[j], cw20_address) + (airdrop_amount / locked) * locked_nfts(
                    before.users[j].staked_nfts,
                    env.time,
                    before.address,
                )
            &&& total_claimable(after, cw20_address) == total_claimable(before, cw20_address) + (airdrop_amount
                / locked) * locked
            &&& (airdrop_amount / locked) * locked == airdrop_amount - airdrop_amount % locked
            &&& pool_available(after, cw20_address) + airdrop_amount == pool_available(before, cw20_address)
            &&& pool_total(after, cw20_address) == pool_total(before, cw20_address) + airdrop_amount
            &&& cw20_address.len() == 0 ==> after.airdrop_infos == before.airdrop_infos
            &&& cw20_address.len() != 0 ==> {
                &&& after.airdropable == before.airdropable
                &&& after.total_airdrop == before.total_airdrop
                &&& forall|j: int|
                    0 <= j < before.users.len() ==> (#[trigger] after.users[j]).claimable
                        == before.users[j].claimable && after.users[j].total_earnd == before.users[j].total_earnd
            }
            &&& !after.is_started
        }),
{
    let next = airdrop_model(l, env, info, collection_address, cw20_address, airdrop_amount)->Ok_0.0;
    let i = find(l.collections, collection_address)->Some_0;
    lemma_position(keys(l.collections), collection_address);
    let before = l.collections[i];
    let after = next.collections[i];
    let locked = locked_count(before, env.time);
    let per_nft = airdrop_amount / locked;
    assert(after == airdrop_collection(before, cw20_address, airdrop_amount, env.time));
    lemma_airdrop_to_users_claimable(
        before.users,
        cw20_address,
        per_nft,
        env.time,
        before.address,
        before.users.len(),
    );
    assert(per_nft * locked == airdrop_amount - airdrop_amount % locked) by (nonlinear_arith)
        requires
            per_nft == airdrop_amount / locked,
            locked > 0,
    ;
    assert(per_nft * locked == (airdrop_amount / locked) * locked);
    if cw20_address.len() != 0 {
        lemma_position(keys(before.airdrop_infos), cw20_address);
        assert(keys(draw_pool(before, cw20_address, airdrop_amount).airdrop_infos) =~= keys(before.airdrop_infos));
    }
    assert forall|j: int| 0 <= j < before.users.len() implies claimable_of(#[trigger] after.users[j], cw20_address)
        == claimable_of(before.users[j], cw20_address) + per_nft * locked_nfts(
        before.users[j].staked_nfts,
        env.time,
        before.address,
    ) by {
        lemma_airdrop_to_user_claimable(before.users[j], cw20_address, per_nft, env.time, before.address);
    }
}

/// Claim round-trip. A claim pays out exactly what the caller could claim
/// in the token; afterwards nothing is left to claim in it, and what was
/// paid has been added to what the caller has earned in it. What the caller
/// can claim and has earned in any other currency stays as it was.
pub proof fn lemma_claim_round_trip(
    l: LedgerView,
    info: MessageInfoView,
    collection_address: Seq<char>,
    cw20_address: Seq<char>,
    balance: nat,
    other: Seq<char>,
)
    requires
        claim_model(l, info, collection_address, cw20_address, balance) is Ok,
    ensures
        ({
            let (next, msgs) = claim_model(l, info, collection_address, cw20_address, balance)->Ok_0;
            let i = find(l.collections, collection_address)->Some_0;
            let j = find(l.collections[i].users, info.sender)->Some_0;
            let before = l.collections[i].users[j];
            let after = next.collections[i].users[j];
            let paid = claimable_of(before, cw20_address);
            &&& find(l.collections, collection_address) is Some
            &&& find(l.collections[i].users, info.sender) is Some
            &&& 0 < paid <= balance
            &&& msgs == seq![
                transfer_token_msg(denom_of(l.config.native_token, cw20_address), paid as int, info.sender),
            ]
            &&& claimable_of(after, cw20_address) == 0
            &&& earned_of(after, cw20_address) == earned_of(before, cw20_address) + paid
            &&& other != cw20_address ==> claimable_of(after, other) == claimable_of(before, other) && earned_of(
                after,
                other,
            ) == earned_of(before, other)
        }),
{
    let (next, msgs) = claim_model(l, info, collection_address, cw20_address, balance)->Ok_0;
    let i = find(l.collections, collection_address)->Some_0;
    lemma_position(keys(l.collections), collection_address);
    let j = find(l.collections[i].users, info.sender)->Some_0;
    lemma_position(keys(l.collections[i].users), info.sender);
    let before = l.collections[i].users[j];
    let after = next.collections[i].users[j];
    assert(after == pay_out(before, cw20_address));
    if cw20_address.len() != 0 {
        lemma_position(keys(before.earn_infos), cw20_address);
        lemma_position(keys(before.earn_infos), other);
        assert(keys(after.earn_infos) =~= keys(before.earn_infos));
        if other != cw20_address && other.len() != 0 && find(before.earn_infos, other) is Some {
            assert(find(before.earn_infos, other)->Some_0 != find(before.earn_infos, cw20_address)->Some_0);
        }
    } else {
        assert(other != cw20_address ==> other.len() != 0) by {
            if other.len() == 0 {
                assert(other =~= cw20_address);
            }
        }
    }
}

/// An NFT as restaking leaves it when its lock has run out: locked for
/// `duration` from `now`, and not counted in an airdrop.
pub open spec fn renewed(n: NftInfoView, now: nat, duration: nat) -> NftInfoView {
    NftInfoView { lock_time: now + duration, airdrop: false, ..n }
}

/// Restaking a batch changes only NFTs whose lock had run out at the time
/// of the call: an NFT that was still locked is as it was, with its lock time
/// and its airdrop flag, and any other is either as it was or locked anew.
pub proof fn lemma_restake_keeps_locked(
    nfts: Seq<NftInfoView>,
    ids: Seq<Seq<char>>,
    n: nat,
    now: nat,
    duration: nat,
    collection: Seq<char>,
)
    requires
        restake_nfts(nfts, ids, n, now, duration, collection) is Ok,
    ensures
        ({
            let after = restake_nfts(nfts, ids, n, now, duration, collection)->Ok_0;
            &&& after.len() == nfts.len()
            &&& forall|k: int|
                0 <= k < nfts.len() && nfts[k].lock_time > now ==> (#[trigger] after[k]) == nfts[k]
            &&& forall|k: int|
                0 <= k < nfts.len() ==> (#[trigger] after[k]) == nfts[k] || after[k] == renewed(
                    nfts[k],
                    now,
                    duration,
                )
        }),
    decreases n,
{
    if n > 0 {
        lemma_restake_keeps_locked(nfts, ids, (n - 1) as nat, now, duration, collection);
        let so_far = restake_nfts(nfts, ids, (n - 1) as nat, now, duration, collection)->Ok_0;
        lemma_position(keys(so_far), ids[n - 1]);
    }
}

/// Restaking changes only those NFTs of the caller whose lock had run out
/// at the time of the call. The caller's NFTs that were still locked, all
/// that anybody else holds, and everything else in the collection stay as
/// they were.
pub proof fn lemma_restake_changes_unlocked_only(
    l: LedgerView,
    env: EnvView,
    info: MessageInfoView,
    collection_address: Seq<char>,
    token_id: Seq<Seq<char>>,
)
    requires
        restake_model(l, env, info, collection_address, token_id) is Ok,
    ensures
        ({
            let next = restake_model(l, env, info, collection_address, token_id)->Ok_0.0;
            let i = find(l.collections, collection_address)->Some_0;
            let j = find(l.collections[i].users, info.sender)->Some_0;
            let before = l.collections[i];
            let after = next.collections[i];
            &&& find(l.collections, collection_address) is Some
            &&& find(before.users, info.sender) is Some
            &&& after == CollectionView { users: after.users, ..before }
            &&& after.users.len() == before.users.len()
            &&& forall|m: int| 0 <= m < before.users.len() && m != j ==> (#[trigger] after.users[m]) == before.users[m]
            &&& after.users[j] == UserInfoView { staked_nfts: after.users[j].staked_nfts, ..before.users[j] }
            &&& after.users[j].staked_nfts.len() == before.users[j].staked_nfts.len()
            &&& forall|k: int|
                0 <= k < before.users[j].staked_nfts.len() && before.users[j].staked_nfts[k].lock_time > env.time
                    ==> (#[trigger] after.users[j].staked_nfts[k]) == before.users[j].staked_nfts[k]
            &&& forall|k: int|
                0 <= k < before.users[j].staked_nfts.len() ==> (#[trigger] after.users[j].staked_nfts[k])
                    == before.users[j].staked_nfts[k] || after.users[j].staked_nfts[k] == renewed(
                    before.users[j].staked_nfts[k],
                    env.time,
                    before.duration,
                )
        }),
{
    let i = find(l.collections, collection_address)->Some_0;
    lemma_position(keys(l.collections), collection_address);
    let before = l.collections[i];
    let j = find(before.users, info.sender)->Some_0;
    lemma_position(keys(before.users), info.sender);
    lemma_restake_keeps_locked(
        before.users[j].staked_nfts,
        token_id,
        token_id.len(),
        env.time,
        before.duration,
        before.address,
    );
}

/// No key occurs twice in the list.
pub open spec fn distinct(list: Seq<Seq<char>>) -> bool {
    forall|i: int, j: int| 0 <= i < j < list.len() ==> list[i] != list[j]
}

/// The collection holds each participant once, and every NFT staked in it
/// names it as its collection.
pub open spec fn collection_well_formed(c: CollectionView) -> bool {
    &&& distinct(keys(c.users))
    &&& forall|j: int, k: int|
        0 <= j < c.users.len() && 0 <= k < c.users[j].staked_nfts.len() ==> (
        #[trigger] c.users[j].staked_nfts[k]).collection_address == c.address
}

/// The ledger holds each collection once, and each of them is well
/// formed.
pub open spec fn well_formed(l: LedgerView) -> bool {
    &&& distinct(keys(l.collections))
    &&& forall|i: int| 0 <= i < l.collections.len() ==> collection_well_formed(#[trigger] l.collections[i])
}

/// A ledger that has just been set up is well formed.
pub proof fn lemma_instantiate_well_formed(msg: InstantiateMsg)
    ensures
        well_formed(instantiate_model(msg)),
{
}

/// A well-formed ledger, with one of its collections replaced by a
/// well-formed one of the same address, is well formed.
pub proof fn lemma_put_well_formed(l: LedgerView, i: int, c: CollectionView)
    requires
        well_formed(l),
        0 <= i < l.collections.len(),
        c.address == l.collections[i].address,
        collection_well_formed(c),
    ensures
        well_formed(put_collection(l, i, c)),
{
    let next = put_collection(l, i, c);
    assert(keys(next.collections) =~= keys(l.collections));
    assert forall|m: int| 0 <= m < next.collections.len() implies collection_well_formed(
        #[trigger] next.collections[m],
    ) by {
        if m != i {
            assert(collection_well_formed(l.collections[m]));
        }
    }
}

/// A well-formed collection stays so when NFTs that name it are staked in
/// it.
pub proof fn lemma_add_nfts_well_formed(c: CollectionView, who: Seq<char>, nfts: Seq<NftInfoView>)
    requires
        collection_well_formed(c),
        forall|k: int| 0 <= k < nfts.len() ==> (#[trigger] nfts[k]).collection_address == c.address,
    ensures
        collection_well_formed(CollectionView { users: add_nfts(c.users, who, nfts), ..c }),
{
    let next = CollectionView { users: add_nfts(c.users, who, nfts), ..c };
    lemma_position(keys(c.users), who);
    match find(c.users, who) {
        Some(at) => {
            assert(keys(next.users) =~= keys(c.users));
            assert forall|j: int, k: int|
                0 <= j < next.users.len() && 0 <= k < next.users[j].staked_nfts.len() implies (
            #[trigger] next.users[j].staked_nfts[k]).collection_address == next.address by {
                if j != at {
                    assert(c.users[j].staked_nfts[k].collection_address == c.address);
                } else if k < c.users[at].staked_nfts.len() {
                    assert(c.users[at].staked_nfts[k].collection_address == c.address);
                } else {
                    assert(nfts[k - c.users[at].staked_nfts.len()].collection_address == c.address);
                }
            }
        },
        None => {
            assert(keys(next.users) =~= keys(c.users).push(who));
            assert forall|j: int, k: int|
                0 <= j < next.users.len() && 0 <= k < next.users[j].staked_nfts.len() implies (
            #[trigger] next.users[j].staked_nfts[k]).collection_address == next.address by {
                if j < c.users.len() {
                    assert(c.users[j].staked_nfts[k].collection_address == c.address);
                } else {
                    assert(nfts[k].collection_address == c.address);
                }
            }
        },
    }
}

/// A well-formed collection stays so when the NFTs of one participant are
/// replaced by NFTs that name the collection.
pub proof fn lemma_put_nfts_well_formed(c: CollectionView, at: int, nfts: Seq<NftInfoView>)
    requires
        collection_well_formed(c),
        0 <= at < c.users.len(),
        forall|k: int| 0 <= k < nfts.len() ==> (#[trigger] nfts[k]).collection_address == c.address,
    ensures
        collection_well_formed(
            CollectionView { users: c.users.update(at, UserInfoView { staked_nfts: nfts, ..c.users[at] }), ..c },
        ),
{
    let next = CollectionView { users: c.users.update(at, UserInfoView { staked_nfts: nfts, ..c.users[at] }), ..c };
    assert(keys(next.users) =~= keys(c.users));
    assert forall|j: int, k: int|
        0 <= j < next.users.len() && 0 <= k < next.users[j].staked_nfts.len() implies (
    #[trigger] next.users[j].staked_nfts[k]).collection_address == next.address by {
        if j != at {
            assert(c.users[j].staked_nfts[k].collection_address == c.address);
        } else {
            assert(nfts[k].collection_address == c.address);
        }
    }
}

/// Staking a received NFT keeps a well-formed ledger well formed.
pub proof fn lemma_receive_nft_keeps_well_formed(
    l: LedgerView,
    env: EnvView,
    info: MessageInfoView,
    wrapper: Cw721ReceiveView,
)
    requires
        well_formed(l),
        receive_nft_model(l, env, info, wrapper) is Ok,
    ensures
        well_formed(receive_nft_model(l, env, info, wrapper)->Ok_0.0),
{
    let i = find(l.collections, wrapper.stake_collection)->Some_0;
    lemma_position(keys(l.collections), wrapper.stake_collection);
    let c = l.collections[i];
    let nfts = new_nfts(seq![wrapper.token_id], c.duration + env.time, c.address);
    assert(collection_well_formed(c));
    lemma_add_nfts_well_formed(c, wrapper.sender, nfts);
    lemma_put_well_formed(l, i, CollectionView { users: add_nfts(c.users, wrapper.sender, nfts), ..c });
}

/// Every call keeps a well-formed ledger well formed: whatever is called,
/// no collection and no participant comes to be held twice, and no NFT comes
/// to be staked in a collection that it does not name.
pub proof fn lemma_execute_keeps_well_formed(
    l: LedgerView,
    env: EnvView,
    info: MessageInfoView,
    msg: ExecuteMsg,
    balance: nat,
)
    requires
        well_formed(l),
        execute_model(l, env, info, msg, balance) is Ok,
    ensures
        well_formed(execute_model(l, env, info, msg, balance)->Ok_0.0),
{
    let next = execute_model(l, env, info, msg, balance)->Ok_0.0;
    match msg {
        ExecuteMsg::UpdateOwner { .. } | ExecuteMsg::UpdateFeeAddress { .. } | ExecuteMsg::UpdateTxFee { .. } => {
            assert(next.collections == l.collections);
        },
        ExecuteMsg::Withdraw { .. } | ExecuteMsg::TransferNft { .. } => {
            assert(next == l);
        },
        ExecuteMsg::RegisteCollection {
            collection_address,
            owner,
            new_unstaking_fee,
            new_unstaking_fee_percent,
            cw20_address,
        } => {
            let fresh = crate::model::fresh_collection(
                collection_address@,
                owner@,
                cw20_address@,
                new_unstaking_fee as nat,
                new_unstaking_fee_percent as nat,
            );
            assert(collection_well_formed(fresh));
            lemma_position(keys(l.collections), collection_address@);
            match find(l.collections, collection_address@) {
                Some(i) => {
                    lemma_put_well_formed(l, i, fresh);
                },
                None => {
                    assert(keys(next.collections) =~= keys(l.collections).push(collection_address@));
                    assert forall|m: int| 0 <= m < next.collections.len() implies collection_well_formed(
                        #[trigger] next.collections[m],
                    ) by {
                        if m < l.collections.len() {
                            assert(collection_well_formed(l.collections[m]));
                        }
                    }
                },
            }
        },
        ExecuteMsg::UpdateCollectionFee { collection_address, .. }
        | ExecuteMsg::UpdateCollectionState { collection_address, .. }
        | ExecuteMsg::UpdateCollection { collection_address, .. }
        | ExecuteMsg::AirdropRestart { collection_address }
        | ExecuteMsg::Charge { collection_address }
        | ExecuteMsg::ChargeToken { collection_address, .. }
        | ExecuteMsg::WithdrawAirdrop { collection_address, .. } => {
            let i = find(l.collections, collection_address@)->Some_0;
            lemma_position(keys(l.collections), collection_address@);
            let c = l.collections[i];
            let after = next.collections[i];
            assert(collection_well_formed(c));
            assert(after.users == c.users);
            assert(after.address == c.address);
            assert(next == put_collection(l, i, after));
            lemma_put_well_formed(l, i, after);
        },
        ExecuteMsg::Airdrop { collection_address, cw20_address, airdrop_amount } => {
            let i = find(l.collections, collection_address@)->Some_0;
            lemma_position(keys(l.collections), collection_address@);
            let c = l.collections[i];
            let after = next.collections[i];
            assert(collection_well_formed(c));
            assert(after == airdrop_collection(c, cw20_address@, airdrop_amount as nat, env.time));
            assert(keys(after.users) =~= keys(c.users)) by {
                assert forall|j: int| 0 <= j < c.users.len() implies after.users[j].address == c.users[j].address by {
                }
            }
            assert forall|j: int, k: int|
                0 <= j < after.users.len() && 0 <= k < after.users[j].staked_nfts.len() implies (
            #[trigger] after.users[j].staked_nfts[k]).collection_address == after.address by {
                assert(after.users[j].staked_nfts.len() == c.users[j].staked_nfts.len());
                assert(c.users[j].staked_nfts[k].collection_address == c.address);
            }
            assert(after.address == c.address);
            lemma_put_well_formed(l, i, after);
        },
        ExecuteMsg::Staking { collection_address, token_id } => {
            let i = find(l.collections, collection_address@)->Some_0;
            lemma_position(keys(l.collections), collection_address@);
            let c = l.collections[i];
            let nfts = new_nfts(crate::state::views(token_id@), c.duration + env.time, c.address);
            assert(collection_well_formed(c));
            lemma_add_nfts_well_formed(c, info.sender, nfts);
            lemma_put_well_formed(l, i, CollectionView { users: add_nfts(c.users, info.sender, nfts), ..c });
        },
        ExecuteMsg::Restake { collection_address, token_id } => {
            let i = find(l.collections, collection_address@)->Some_0;
            lemma_position(keys(l.collections), collection_address@);
            let c = l.collections[i];
            let at = find(c.users, info.sender)->Some_0;
            lemma_position(keys(c.users), info.sender);
            let ids = crate::state::views(token_id@);
            let held = c.users[at].staked_nfts;
            let last = restake_nfts(held, ids, ids.len(), env.time, c.duration, c.address)->Ok_0;
            assert(collection_well_formed(c));
            lemma_restake_keeps_ids(held, ids, ids.len(), env.time, c.duration, c.address);
            assert forall|k: int| 0 <= k < last.len() implies (#[trigger] last[k]).collection_address == c.address by {
                assert(held[k].collection_address == c.address);
            }
            lemma_put_nfts_well_formed(c, at, last);
            lemma_put_well_formed(
                l,
                i,
                CollectionView { users: c.users.update(at, UserInfoView { staked_nfts: last, ..c.users[at] }), ..c },
            );
        },
        ExecuteMsg::Unstake { collection_address, token_id } => {
            let i = find(l.collections, collection_address@)->Some_0;
            lemma_position(keys(l.collections), collection_address@);
            let c = l.collections[i];
            let at = find(c.users, info.sender)->Some_0;
            lemma_position(keys(c.users), info.sender);
            let ids = crate::state::views(token_id@);
            let held = c.users[at].staked_nfts;
            let left = unstake_nfts(held, ids, ids.len(), env.time, c.address)->Ok_0.nfts;
            assert(collection_well_formed(c));
            lemma_unstake_leaves_held(held, ids, ids.len(), env.time, c.address);
            assert forall|k: int| 0 <= k < left.len() implies (#[trigger] left[k]).collection_address == c.address by {
                assert(held.contains(left[k]));
                let m = choose|m: int| 0 <= m < held.len() && held[m] == left[k];
                assert(held[m].collection_address == c.address);
            }
            lemma_put_nfts_well_formed(c, at, left);
            lemma_put_well_formed(
                l,
                i,
                CollectionView { users: c.users.update(at, UserInfoView { staked_nfts: left, ..c.users[at] }), ..c },
            );
        },
        ExecuteMsg::Claim { collection_address, cw20_address } => {
            let i = find(l.collections, collection_address@)->Some_0;
            lemma_position(keys(l.collections), collection_address@);
            let c = l.collections[i];
            let at = find(c.users, info.sender)->Some_0;
            lemma_position(keys(c.users), info.sender);
            let paid = pay_out(c.users[at], cw20_address@);
            assert(collection_well_formed(c));
            assert(paid == UserInfoView { staked_nfts: c.users[at].staked_nfts, ..paid });
            assert(paid.address == c.users[at].address);
            let after = CollectionView { users: c.users.update(at, paid), ..c };
            assert(keys(after.users) =~= keys(c.users));
            assert forall|j: int, k: int|
                0 <= j < after.users.len() && 0 <= k < after.users[j].staked_nfts.len() implies (
            #[trigger] after.users[j].staked_nfts[k]).collection_address == after.address by {
                assert(c.users[j].staked_nfts[k].collection_address == c.address);
            }
            lemma_put_well_formed(l, i, after);
        },
    }
}

} // verus!
