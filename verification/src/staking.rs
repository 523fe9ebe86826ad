//! Staking, restaking and unstaking, stated on the views of the records.
use vstd::prelude::*;
use crate::error::ContractError;
use crate::host::{CosmosMsgView, EnvView, MessageInfoView};
use crate::lookup::find;
use crate::model::{Transition, put_collection};
use crate::msg::Cw721ReceiveView;
use crate::rewards::{paid_in, transfer_nft_msg};
use crate::state::{CollectionView, ConfigView, LedgerView, NftInfoView, UserInfoView};

verus! {

/// The call pays at least the flat fee: there is none, or the call came
/// with one payment in the native currency that covers it.
pub open spec fn pays_tx_fee(cfg: ConfigView, info: MessageInfoView) -> bool {
    cfg.tx_fee == 0 || (paid_in(info, cfg.native_token) matches Some(paid) && paid >= cfg.tx_fee)
}

/// One new NFT for each id, locked until `lock_time` and not yet counted
/// in an airdrop.
pub open spec fn new_nfts(ids: Seq<Seq<char>>, lock_time: nat, collection: Seq<char>) -> Seq<NftInfoView> {
    Seq::new(
        ids.len(),
        |k: int| NftInfoView { nft_id: ids[k], lock_time, airdrop: false, collection_address: collection },
    )
}

/// A participant who has earned nothing yet and holds `nfts`.
pub open spec fn new_user(who: Seq<char>, nfts: Seq<NftInfoView>) -> UserInfoView {
    UserInfoView { address: who, total_earnd: 0, claimable: 0, earn_infos: Seq::empty(), staked_nfts: nfts }
}

/// The users after `who` has staked `nfts`: they go behind those that
/// `who` holds already, or `who` joins as a new participant.
pub open spec fn add_nfts(users: Seq<UserInfoView>, who: Seq<char>, nfts: Seq<NftInfoView>) -> Seq<UserInfoView> {
    match find(users, who) {
        Some(j) => users.update(j, UserInfoView { staked_nfts: users[j].staked_nfts + nfts, ..users[j] }),
        None => users.push(new_user(who, nfts)),
    }
}

/// One instruction for each id, which moves that NFT of the collection to
/// `recipient`.
pub open spec fn transfer_nft_msgs(collection: Seq<char>, ids: Seq<Seq<char>>, recipient: Seq<char>) -> Seq<
    CosmosMsgView,
> {
    Seq::new(ids.len(), |k: int| transfer_nft_msg(collection, ids[k], recipient))
}

/// The staking of the NFTs `token_id` by the caller, for one flat fee.
pub open spec fn stake_model(
    l: LedgerView,
    env: EnvView,
    info: MessageInfoView,
    collection_address: Seq<char>,
    token_id: Seq<Seq<char>>,
) -> Transition {
    match find(l.collections, collection_address) {
        None => Err(ContractError::InvalidCollection),
        Some(i) => {
            let c = l.collections[i];
            if !c.is_enabled {
                Err(ContractError::Disabled)
            } else if !c.is_started {
                Err(ContractError::NotStarted)
            } else if !pays_tx_fee(l.config, info) {
                Err(ContractError::InsufficientCw20)
            } else {
                Ok(
                    (
                        put_collection(
                            l,
                            i,
                            CollectionView {
                                users: add_nfts(
                                    c.users,
                                    info.sender,
                                    new_nfts(token_id, c.duration + env.time, c.address),
                                ),
                                ..c
                            },
                        ),
                        transfer_nft_msgs(c.address, token_id, env.contract_address),
                    ),
                )
            }
        },
    }
}

/// The staking of an NFT that its contract has sent to the ledger. The
/// caller is that contract; the notice names the sender of the NFT.
pub open spec fn receive_nft_model(l: LedgerView, env: EnvView, info: MessageInfoView, wrapper: Cw721ReceiveView) -> Transition {
    match find(l.collections, info.sender) {
        None => Err(ContractError::InvalidCollection),
        Some(s) => if !l.collections[s].is_enabled {
            Err(ContractError::Disabled)
        } else {
            match find(l.collections, wrapper.stake_collection) {
                None => Err(ContractError::InvalidCollection),
                Some(i) => {
                    let c = l.collections[i];
                    if !c.is_started {
                        Err(ContractError::NotStarted)
                    } else if info.sender != wrapper.stake_collection {
                        Err(ContractError::InvalidCw721Token)
                    } else if wrapper.stake_sender != wrapper.sender || wrapper.stake_token_id
                        != wrapper.token_id {
                        Err(ContractError::InvalidCw721Msg)
                    } else {
                        Ok(
                            (
                                put_collection(
                                    l,
                                    i,
                                    CollectionView {
                                        users: add_nfts(
                                            c.users,
                                            wrapper.sender,
                                            new_nfts(seq![wrapper.token_id], c.duration + env.time, c.address),
                                        ),
                                        ..c
                                    },
                                ),
                                Seq::empty(),
                            ),
                        )
                    }
                },
            }
        },
    }
}

/// What restaking does with one id: an NFT whose lock has run out is
/// locked anew and no longer counts as airdropped; one that is still locked
/// stays as it is.
pub open spec fn restake_step(
    nfts: Seq<NftInfoView>,
    id: Seq<char>,
    now: nat,
    duration: nat,
    collection: Seq<char>,
) -> Result<Seq<NftInfoView>, ContractError> {
    match find(nfts, id) {
        None => Err(ContractError::NoStakedNft),
        Some(k) => if nfts[k].collection_address != collection {
            Err(ContractError::InvalidCw721Msg)
        } else if nfts[k].lock_time > now {
            Ok(nfts)
        } else {
            Ok(nfts.update(k, NftInfoView { lock_time: now + duration, airdrop: false, ..nfts[k] }))
        },
    }
}

/// What restaking makes of `nfts` with the first `n` of `ids`, one after
/// the other. The first id that fails ends it.
pub open spec fn restake_nfts(
    nfts: Seq<NftInfoView>,
    ids: Seq<Seq<char>>,
    n: nat,
    now: nat,
    duration: nat,
    collection: Seq<char>,
) -> Result<Seq<NftInfoView>, ContractError>
    decreases n,
{
    if n == 0 {
        Ok(nfts)
    } else {
        match restake_nfts(nfts, ids, (n - 1) as nat, now, duration, collection) {
            Err(e) => Err(e),
            Ok(so_far) => restake_step(so_far, ids[n - 1], now, duration, collection),
        }
    }
}

/// The restaking of the NFTs `token_id` by the caller, for one flat fee.
pub open spec fn restake_model(
    l: LedgerView,
    env: EnvView,
    info: MessageInfoView,
    collection_address: Seq<char>,
    token_id: Seq<Seq<char>>,
) -> Transition {
    match find(l.collections, collection_address) {
        None => Err(ContractError::InvalidCollection),
        Some(i) => {
            let c = l.collections[i];
            if !c.is_enabled {
                Err(ContractError::Disabled)
            } else if !c.is_started {
                Err(ContractError::NotStarted)
            } else if !pays_tx_fee(l.config, info) {
                Err(ContractError::InsufficientCw20)
            } else {
                match find(c.users, info.sender) {
                    None => Err(ContractError::NoStakedNft),
                    Some(j) => if c.users[j].staked_nfts.len() == 0 {
                        Err(ContractError::NoStakedNft)
                    } else {
                        match restake_nfts(
                            c.users[j].staked_nfts,
                            token_id,
                            token_id.len(),
                            env.time,
                            c.duration,
                            c.address,
                        ) {
                            Err(e) => Err(e),
                            Ok(nfts) => Ok(
                                (
                                    put_collection(
                                        l,
                                        i,
                                        CollectionView {
                                            users: c.users.update(
                                                j,
                                                UserInfoView { staked_nfts: nfts, ..c.users[j] },
                                            ),
                                            ..c
                                        },
                                    ),
                                    Seq::empty(),
                                ),
                            ),
                        }
                    },
                }
            }
        },
    }
}

/// What is left of a participant's NFTs while a batch is unstaked, and how
/// many of those taken out were still locked.
#[verifier::ext_equal]
pub struct Unstaking {
    pub nfts: Seq<NftInfoView>,
    pub early: nat,
}

/// What unstaking does with one id: the NFT leaves the list, and counts as
/// taken out early if its lock has yet to run out.
pub open spec fn unstake_step(acc: Unstaking, id: Seq<char>, now: nat, collection: Seq<char>) -> Result<
    Unstaking,
    ContractError,
> {
    match find(acc.nfts, id) {
        None => Err(ContractError::NoStakedNft),
        Some(k) => if acc.nfts[k].collection_address != collection {
            Err(ContractError::InvalidCw721Token)
        } else {
            Ok(
                Unstaking {
                    nfts: acc.nfts.remove(k),
                    early: acc.early + if acc.nfts[k].lock_time > now {
                        1nat
                    } else {
                        0nat
                    },
                },
            )
        },
    }
}

/// What unstaking makes of `nfts` with the first `n` of `ids`, one after
/// the other. The first id that fails ends it.
pub open spec fn unstake_nfts(nfts: Seq<NftInfoView>, ids: Seq<Seq<char>>, n: nat, now: nat, collection: Seq<char>) -> Result<
    Unstaking,
    ContractError,
>
    decreases n,
{
    if n == 0 {
        Ok(Unstaking { nfts, early: 0 })
    } else {
        match unstake_nfts(nfts, ids, (n - 1) as nat, now, collection) {
            Err(e) => Err(e),
            Ok(so_far) => unstake_step(so_far, ids[n - 1], now, collection),
        }
    }
}

/// The ledger's share of an unstaking fee: `percent` hundredths of it,
/// rounded down.
pub open spec fn owner_fee(total_fee: nat, percent: nat) -> nat {
    total_fee * percent / 100
}

/// The ledger's share of a fee, computed from the hundreds of the fee and
/// what is left of it.
pub proof fn lemma_owner_fee_parts(total_fee: nat, percent: nat)
    ensures
        owner_fee(total_fee, percent) == (total_fee / 100) * percent + ((total_fee % 100) * percent) / 100,
{
    let q = total_fee / 100;
    let r = total_fee % 100;
    assert(total_fee * percent == 100 * (q * percent) + r * percent) by (nonlinear_arith)
        requires
            total_fee == 100 * q + r,
    ;
    assert(0 <= r * percent) by (nonlinear_arith)
        requires
            0 <= r,
            0 <= percent,
    ;
}

/// The collection's share of an unstaking fee: what the ledger's share
/// leaves of it.
pub open spec fn collection_fee(total_fee: nat, percent: nat) -> int {
    total_fee - owner_fee(total_fee, percent)
}

/// The payments that split an unstaking fee: the ledger's share to the
/// ledger's fee address, unless it is nothing, then the rest to the
/// collection's. No fee, no payment.
pub open spec fn fee_msgs(cfg: ConfigView, c: CollectionView, total_fee: nat) -> Seq<CosmosMsgView> {
    let to_collection = CosmosMsgView::Send {
        to_address: c.fee_address,
        denom: cfg.native_token,
        amount: collection_fee(total_fee, c.unstaking_fee_percent),
    };
    let to_owner = CosmosMsgView::Send {
        to_address: cfg.fee_address,
        denom: cfg.native_token,
        amount: owner_fee(total_fee, c.unstaking_fee_percent) as int,
    };
    if total_fee == 0 {
        Seq::empty()
    } else if owner_fee(total_fee, c.unstaking_fee_percent) > 0 {
        seq![to_owner, to_collection]
    } else {
        seq![to_collection]
    }
}

/// The unstaking of the NFTs `token_id` by the caller. Each NFT that is
/// taken out before its lock has run out costs the collection's unstaking
/// fee, which has to come with the call.
pub open spec fn unstake_model(
    l: LedgerView,
    env: EnvView,
    info: MessageInfoView,
    collection_address: Seq<char>,
    token_id: Seq<Seq<char>>,
) -> Transition {
    match find(l.collections, collection_address) {
        None => Err(ContractError::InvalidCollection),
        Some(i) => {
            let c = l.collections[i];
            match find(c.users, info.sender) {
                None => Err(ContractError::NoStakedNft),
                Some(j) => if c.users[j].staked_nfts.len() == 0 {
                    Err(ContractError::NoStakedNft)
                } else {
                    match unstake_nfts(c.users[j].staked_nfts, token_id, token_id.len(), env.time, c.address) {
                        Err(e) => Err(e),
                        Ok(left) => {
                            let total_fee = left.early * c.unstaking_fee;
                            if total_fee > 0 && !(paid_in(info, l.config.native_token) matches Some(paid) && paid
                                >= total_fee) {
                                Err(ContractError::Locktime)
                            } else {
                                Ok(
                                    (
                                        put_collection(
                                            l,
                                            i,
                                            CollectionView {
                                                users: c.users.update(
                                                    j,
                                                    UserInfoView { staked_nfts: left.nfts, ..c.users[j] },
                                                ),
                                                ..c
                                            },
                                        ),
                                        transfer_nft_msgs(c.address, token_id, info.sender) + fee_msgs(
                                            l.config,
                                            c,
                                            total_fee,
                                        ),
                                    ),
                                )
                            }
                        },
                    }
                },
            }
        },
    }
}

} // verus!
