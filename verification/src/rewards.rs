//! Pools, airdrops and claims, stated on the views of the records.
use vstd::prelude::*;
use crate::error::ContractError;
use crate::host::{CosmosMsgView, DenomView, EnvView, MessageInfoView};
use crate::lookup::find;
use crate::model::{Transition, is_admin, is_collection_admin, put_collection};
use crate::state::{AirdropInfoView, CollectionView, EarnInfoView, LedgerView, NftInfoView, UserInfoView};
use crate::wire::{cw20_transfer_binary, cw20_transfer_from_binary, cw721_transfer_nft_binary};

verus! {

/// The instruction that moves the NFT `token_id` of `collection` to
/// `recipient`.
pub open spec fn transfer_nft_msg(collection: Seq<char>, token_id: Seq<char>, recipient: Seq<char>) -> CosmosMsgView {
    CosmosMsgView::Execute { contract_addr: collection, msg: cw721_transfer_nft_binary(recipient, token_id) }
}

/// The instruction that pays `amount` of `denom` to `receiver`: a payment
/// in the native currency, or a call of the token's contract.
pub open spec fn transfer_token_msg(denom: DenomView, amount: int, receiver: Seq<char>) -> CosmosMsgView {
    match denom {
        DenomView::Native(name) => CosmosMsgView::Send { to_address: receiver, denom: name, amount },
        DenomView::Cw20(contract) => CosmosMsgView::Execute {
            contract_addr: contract,
            msg: cw20_transfer_binary(receiver, amount as u128),
        },
    }
}

/// The instruction that has the token's contract move `amount` from `owner`
/// to `receiver`.
pub open spec fn transfer_from_token_msg(
    contract: Seq<char>,
    owner: Seq<char>,
    receiver: Seq<char>,
    amount: nat,
) -> CosmosMsgView {
    CosmosMsgView::Execute { contract_addr: contract, msg: cw20_transfer_from_binary(owner, receiver, amount as u128) }
}

/// The currency that `token` stands for: the ledger's native one where
/// `token` is empty, else the token itself.
pub open spec fn denom_of(native_token: Seq<char>, token: Seq<char>) -> DenomView {
    if token.len() == 0 {
        DenomView::Native(native_token)
    } else {
        DenomView::Cw20(token)
    }
}

/// What was paid with the call in the currency `denom`: the amount of the
/// only coin that came with it. A call with no coin, with several, with a
/// coin of amount zero or of another currency has paid nothing.
pub open spec fn paid_in(info: MessageInfoView, denom: Seq<char>) -> Option<nat> {
    if info.funds.len() == 1 && info.funds[0].amount != 0 && info.funds[0].denom == denom {
        Some(info.funds[0].amount)
    } else {
        None
    }
}

/// The NFT is staked under `collection` and its lock has yet to run out.
pub open spec fn is_locked(n: NftInfoView, now: nat, collection: Seq<char>) -> bool {
    n.lock_time > now && n.collection_address == collection
}

/// How many of the first `n` NFTs are locked.
pub open spec fn locked_among(nfts: Seq<NftInfoView>, now: nat, collection: Seq<char>, n: nat) -> nat
    decreases n,
{
    if n == 0 {
        0
    } else {
        locked_among(nfts, now, collection, (n - 1) as nat) + if is_locked(nfts[n - 1], now, collection) {
            1nat
        } else {
            0nat
        }
    }
}

/// How many of the NFTs are locked.
pub open spec fn locked_nfts(nfts: Seq<NftInfoView>, now: nat, collection: Seq<char>) -> nat {
    locked_among(nfts, now, collection, nfts.len())
}

/// How many NFTs the first `n` users have locked.
pub open spec fn locked_of_users(users: Seq<UserInfoView>, now: nat, collection: Seq<char>, n: nat) -> nat
    decreases n,
{
    if n == 0 {
        0
    } else {
        locked_of_users(users, now, collection, (n - 1) as nat) + locked_nfts(
            users[n - 1].staked_nfts,
            now,
            collection,
        )
    }
}

/// How many NFTs are locked in the collection at the time `now`.
pub open spec fn locked_count(c: CollectionView, now: nat) -> nat {
    locked_of_users(c.users, now, c.address, c.users.len())
}

/// What the pool of `token` holds for future airdrops; the native pool
/// where `token` is empty.
pub open spec fn pool_available(c: CollectionView, token: Seq<char>) -> nat {
    if token.len() == 0 {
        c.airdropable
    } else {
        match find(c.airdrop_infos, token) {
            Some(k) => c.airdrop_infos[k].airdropable,
            None => 0,
        }
    }
}

/// What has been airdropped from the pool of `token` so far.
pub open spec fn pool_total(c: CollectionView, token: Seq<char>) -> nat {
    if token.len() == 0 {
        c.total_airdrop
    } else {
        match find(c.airdrop_infos, token) {
            Some(k) => c.airdrop_infos[k].total_airdrop,
            None => 0,
        }
    }
}

/// What the user can claim in `token`; in the native currency where
/// `token` is empty.
pub open spec fn claimable_of(u: UserInfoView, token: Seq<char>) -> nat {
    if token.len() == 0 {
        u.claimable
    } else {
        match find(u.earn_infos, token) {
            Some(k) => u.earn_infos[k].claimable,
            None => 0,
        }
    }
}

/// What the user has been paid in `token` so far.
pub open spec fn earned_of(u: UserInfoView, token: Seq<char>) -> nat {
    if token.len() == 0 {
        u.total_earnd
    } else {
        match find(u.earn_infos, token) {
            Some(k) => u.earn_infos[k].total_earned,
            None => 0,
        }
    }
}

/// The collection after `amount` has gone into the pool of `token`. A
/// token that had no pool gets one.
pub open spec fn charge_pool(c: CollectionView, token: Seq<char>, amount: nat) -> CollectionView {
    if token.len() == 0 {
        CollectionView { airdropable: c.airdropable + amount, ..c }
    } else {
        match find(c.airdrop_infos, token) {
            Some(k) => CollectionView {
                airdrop_infos: c.airdrop_infos.update(
                    k,
                    AirdropInfoView { airdropable: c.airdrop_infos[k].airdropable + amount, ..c.airdrop_infos[k] },
                ),
                ..c
            },
            None => CollectionView {
                airdrop_infos: c.airdrop_infos.push(
                    AirdropInfoView { cw20_address: token, total_airdrop: 0, airdropable: amount },
                ),
                ..c
            },
        }
    }
}

/// The collection after `amount` has left the pool of `token` without
/// being airdropped.
pub open spec fn withdraw_pool(c: CollectionView, token: Seq<char>, amount: nat) -> CollectionView {
    if token.len() == 0 {
        CollectionView { airdropable: (c.airdropable - amount) as nat, ..c }
    } else {
        match find(c.airdrop_infos, token) {
            Some(k) => CollectionView {
                airdrop_infos: c.airdrop_infos.update(
                    k,
                    AirdropInfoView {
                        airdropable: (c.airdrop_infos[k].airdropable - amount) as nat,
                        ..c.airdrop_infos[k]
                    },
                ),
                ..c
            },
            None => c,
        }
    }
}

/// The collection after `amount` has left the pool of `token` as an
/// airdrop: the pool holds `amount` less, and its total is `amount` higher.
pub open spec fn draw_pool(c: CollectionView, token: Seq<char>, amount: nat) -> CollectionView {
    if token.len() == 0 {
        CollectionView {
            total_airdrop: c.total_airdrop + amount,
            airdropable: (c.airdropable - amount) as nat,
            ..c
        }
    } else {
        match find(c.airdrop_infos, token) {
            Some(k) => CollectionView {
                airdrop_infos: c.airdrop_infos.update(
                    k,
                    AirdropInfoView {
                        total_airdrop: c.airdrop_infos[k].total_airdrop + amount,
                        airdropable: (c.airdrop_infos[k].airdropable - amount) as nat,
                        ..c.airdrop_infos[k]
                    },
                ),
                ..c
            },
            None => c,
        }
    }
}

/// The NFTs with every locked one marked as counted in the airdrop.
pub open spec fn mark_locked(nfts: Seq<NftInfoView>, now: nat, collection: Seq<char>) -> Seq<NftInfoView> {
    Seq::new(
        nfts.len(),
        |i: int|
            if is_locked(nfts[i], now, collection) {
                NftInfoView { airdrop: true, ..nfts[i] }
            } else {
                nfts[i]
            },
    )
}

/// The user with `amount` more to claim in `token`. A token in which the
/// user had no earnings gets an entry.
pub open spec fn credit(u: UserInfoView, token: Seq<char>, amount: nat) -> UserInfoView {
    if token.len() == 0 {
        UserInfoView { claimable: u.claimable + amount, ..u }
    } else {
        match find(u.earn_infos, token) {
            Some(k) => UserInfoView {
                earn_infos: u.earn_infos.update(
                    k,
                    EarnInfoView { claimable: u.earn_infos[k].claimable + amount, ..u.earn_infos[k] },
                ),
                ..u
            },
            None => UserInfoView {
                earn_infos: u.earn_infos.push(
                    EarnInfoView { cw20_address: token, total_earned: 0, claimable: amount },
                ),
                ..u
            },
        }
    }
}

/// The user after an airdrop of `per_nft` for each locked NFT: the locked
/// NFTs are marked, and the user can claim `per_nft` times their number
/// more. A user without a locked NFT stays as they are.
pub open spec fn airdrop_to_user(
    u: UserInfoView,
    token: Seq<char>,
    per_nft: nat,
    now: nat,
    collection: Seq<char>,
) -> UserInfoView {
    let n = locked_nfts(u.staked_nfts, now, collection);
    if n == 0 {
        u
    } else {
        credit(UserInfoView { staked_nfts: mark_locked(u.staked_nfts, now, collection), ..u }, token, per_nft * n)
    }
}

/// The users after an airdrop of `per_nft` for each locked NFT.
pub open spec fn airdrop_to_users(
    users: Seq<UserInfoView>,
    token: Seq<char>,
    per_nft: nat,
    now: nat,
    collection: Seq<char>,
) -> Seq<UserInfoView> {
    Seq::new(users.len(), |j: int| airdrop_to_user(users[j], token, per_nft, now, collection))
}

/// The collection after an airdrop of `amount` of `token` at the time
/// `now`: each locked NFT brings its holder `amount / locked_count`, rounded
/// down; the pool gives up all of `amount`; and the round is closed.
pub open spec fn airdrop_collection(c: CollectionView, token: Seq<char>, amount: nat, now: nat) -> CollectionView {
    let per_nft = amount / locked_count(c, now);
    CollectionView {
        users: airdrop_to_users(c.users, token, per_nft, now, c.address),
        is_started: false,
        ..draw_pool(c, token, amount)
    }
}

/// An airdrop of `airdrop_amount` of the token `cw20_address`, or of the
/// native currency where that is empty, among the locked NFTs of a
/// collection.
pub open spec fn airdrop_model(
    l: LedgerView,
    env: EnvView,
    info: MessageInfoView,
    collection_address: Seq<char>,
    cw20_address: Seq<char>,
    airdrop_amount: nat,
) -> Transition {
    match find(l.collections, collection_address) {
        None => Err(ContractError::InvalidCollection),
        Some(i) => {
            let c = l.collections[i];
            let locked = locked_count(c, env.time);
            if !c.is_enabled {
                Err(ContractError::Disabled)
            } else if !is_collection_admin(l.config, c, info.sender) {
                Err(ContractError::Unauthorized)
            } else if airdrop_amount == 0 {
                Err(ContractError::InvalidAirdrop)
            } else if airdrop_amount > pool_available(c, cw20_address) {
                Err(ContractError::InsufficientCw20)
            } else if locked == 0 {
                Err(ContractError::NoUnexpiredNft)
            } else if airdrop_amount < locked {
                Err(ContractError::OverNftCount { nft_count: locked as u128 })
            } else {
                Ok((put_collection(l, i, airdrop_collection(c, cw20_address, airdrop_amount, env.time)), Seq::empty()))
            }
        },
    }
}

/// A new airdrop round for the collection, opened at the time of the call.
pub open spec fn airdrop_restart_model(
    l: LedgerView,
    env: EnvView,
    info: MessageInfoView,
    collection_address: Seq<char>,
) -> Transition {
    match find(l.collections, collection_address) {
        None => Err(ContractError::InvalidCollection),
        Some(i) => {
            let c = l.collections[i];
            if !c.is_enabled {
                Err(ContractError::Disabled)
            } else if !is_collection_admin(l.config, c, info.sender) {
                Err(ContractError::Unauthorized)
            } else {
                Ok((put_collection(l, i, CollectionView { started_at: env.time, is_started: true, ..c }), Seq::empty()))
            }
        },
    }
}

/// A payment in the native currency into the collection's native pool.
pub open spec fn charge_model(l: LedgerView, info: MessageInfoView, collection_address: Seq<char>) -> Transition {
    match find(l.collections, collection_address) {
        None => Err(ContractError::InvalidCollection),
        Some(i) => match paid_in(info, l.config.native_token) {
            None => Err(ContractError::InsufficientCw20),
            Some(paid) => Ok((put_collection(l, i, charge_pool(l.collections[i], Seq::empty(), paid)), Seq::empty())),
        },
    }
}

/// A payment of `charge_amount` of the collection's reward token into the
/// pool of that token, pulled from the caller, who holds `balance` of it.
pub open spec fn charge_token_model(
    l: LedgerView,
    env: EnvView,
    info: MessageInfoView,
    collection_address: Seq<char>,
    charge_amount: nat,
    balance: nat,
) -> Transition {
    match find(l.collections, collection_address) {
        None => Err(ContractError::InvalidCollection),
        Some(i) => {
            let c = l.collections[i];
            if c.cw20_address.len() == 0 {
                Err(ContractError::InvalidCw20Token)
            } else if balance < charge_amount {
                Err(ContractError::InsufficientCw20)
            } else {
                Ok(
                    (
                        put_collection(l, i, charge_pool(c, c.cw20_address, charge_amount)),
                        seq![
                            transfer_from_token_msg(c.cw20_address, info.sender, env.contract_address, charge_amount),
                        ],
                    ),
                )
            }
        },
    }
}

/// A payment of `amount` of the native currency out of what the ledger
/// holds, which is `balance`, to an administrator.
pub open spec fn withdraw_model(l: LedgerView, info: MessageInfoView, amount: nat, balance: nat) -> Transition {
    if !is_admin(l.config, info.sender) {
        Err(ContractError::Unauthorized)
    } else if balance < amount {
        Err(ContractError::InsufficientCw20)
    } else {
        Ok((l, seq![transfer_token_msg(DenomView::Native(l.config.native_token), amount as int, info.sender)]))
    }
}

/// A payment of `amount` out of the pool of `cw20_address`, or out of the
/// native pool where that is empty, back to whoever runs the collection.
/// The ledger holds `balance` of that currency.
pub open spec fn withdraw_airdrop_model(
    l: LedgerView,
    info: MessageInfoView,
    collection_address: Seq<char>,
    cw20_address: Seq<char>,
    amount: nat,
    balance: nat,
) -> Transition {
    match find(l.collections, collection_address) {
        None => Err(ContractError::InvalidCollection),
        Some(i) => {
            let c = l.collections[i];
            if !is_collection_admin(l.config, c, info.sender) {
                Err(ContractError::Unauthorized)
            } else if cw20_address.len() != 0 && find(c.airdrop_infos, cw20_address) is None {
                Err(ContractError::InsufficientCw20)
            } else if amount > pool_available(c, cw20_address) {
                Err(ContractError::InsufficientCw20)
            } else if balance < amount {
                Err(ContractError::InsufficientCw20)
            } else {
                Ok(
                    (
                        put_collection(l, i, withdraw_pool(c, cw20_address, amount)),
                        seq![
                            transfer_token_msg(denom_of(l.config.native_token, cw20_address), amount as int, info.sender),
                        ],
                    ),
                )
            }
        },
    }
}

/// The user after everything claimable in `token` has been paid out:
/// nothing is left to claim, and what was paid counts as earned.
pub open spec fn pay_out(u: UserInfoView, token: Seq<char>) -> UserInfoView {
    if token.len() == 0 {
        UserInfoView { total_earnd: u.total_earnd + u.claimable, claimable: 0, ..u }
    } else {
        match find(u.earn_infos, token) {
            Some(k) => UserInfoView {
                earn_infos: u.earn_infos.update(
                    k,
                    EarnInfoView {
                        total_earned: u.earn_infos[k].total_earned + u.earn_infos[k].claimable,
                        claimable: 0,
                        ..u.earn_infos[k]
                    },
                ),
                ..u
            },
            None => u,
        }
    }
}

/// A claim of everything the caller can claim in `cw20_address`, or in the
/// native currency where that is empty. The ledger holds `balance` of that
/// currency. Somebody who never staked in the collection has no record there
/// and is refused; whoever has one may claim, also after unstaking
/// everything.
pub open spec fn claim_model(
    l: LedgerView,
    info: MessageInfoView,
    collection_address: Seq<char>,
    cw20_address: Seq<char>,
    balance: nat,
) -> Transition {
    match find(l.collections, collection_address) {
        None => Err(ContractError::InvalidCollection),
        Some(i) => {
            let c = l.collections[i];
            match find(c.users, info.sender) {
                None => Err(ContractError::NoStakedNft),
                Some(j) => {
                    let u = c.users[j];
                    let amount = claimable_of(u, cw20_address);
                    if amount == 0 {
                        Err(ContractError::NoReward)
                    } else if balance < amount {
                        Err(ContractError::InsufficientCw20)
                    } else {
                        Ok(
                            (
                                put_collection(
                                    l,
                                    i,
                                    CollectionView { users: c.users.update(j, pay_out(u, cw20_address)), ..c },
                                ),
                                seq![
                                    transfer_token_msg(
                                        denom_of(l.config.native_token, cw20_address),
                                        amount as int,
                                        info.sender,
                                    ),
                                ],
                            ),
                        )
                    }
                },
            }
        },
    }
}

/// The hand-over of an NFT that the ledger holds, by an administrator.
pub open spec fn transfer_nft_model(
    l: LedgerView,
    info: MessageInfoView,
    collection_address: Seq<char>,
    nft_id: Seq<char>,
    recipient: Seq<char>,
) -> Transition {
    if !is_admin(l.config, info.sender) {
        Err(ContractError::Unauthorized)
    } else {
        Ok((l, seq![transfer_nft_msg(collection_address, nft_id, recipient)]))
    }
}

} // verus!
