//! What the queries answer, stated on the views of the records.
use vstd::prelude::*;
use crate::error::ContractError;
use crate::host::EnvView;
use crate::lookup::{find, keys};
use crate::msg::{AirdropInfosView, CollectionResponseView, ConfigResponseView, EarnInfosView, StakedNftView};
use crate::rewards::locked_count;
use crate::state::{CollectionView, LedgerView, NftInfoView, UserInfoView};

verus! {

/// The result `r` is the answer `want`, seen through its view.
pub open spec fn answers<T: View>(r: Result<T, ContractError>, want: Result<T::V, ContractError>) -> bool {
    match r {
        Ok(answer) => want == Ok::<T::V, ContractError>(answer@),
        Err(e) => want == Err::<T::V, ContractError>(e),
    }
}

/// The settings as a query shows them.
pub open spec fn config_answer(l: LedgerView) -> ConfigResponseView {
    ConfigResponseView { owner: l.config.owner, fee_address: l.config.fee_address, tx_fee: l.config.tx_fee }
}

/// The collection as a query at the time `now` shows it.
pub open spec fn shown_collection(c: CollectionView, now: nat) -> CollectionResponseView {
    CollectionResponseView {
        address: c.address,
        owner: c.owner,
        total_airdrop: c.total_airdrop,
        airdropable: c.airdropable,
        duration: c.duration,
        started_at: c.started_at,
        fee_address: c.fee_address,
        cw20_address: c.cw20_address,
        is_started: c.is_started,
        is_show: c.is_show,
        is_enabled: c.is_enabled,
        unstaking_fee: c.unstaking_fee,
        unstaking_fee_percent: c.unstaking_fee_percent,
        server_time: now,
    }
}

/// The answer to the query for a collection.
pub open spec fn collection_answer(l: LedgerView, env: EnvView, collection_address: Seq<char>) -> Result<
    CollectionResponseView,
    ContractError,
> {
    match find(l.collections, collection_address) {
        None => Err(ContractError::InvalidCollection),
        Some(i) => Ok(shown_collection(l.collections[i], env.time)),
    }
}

/// The addresses of all registered collections, in the order of the
/// ledger.
pub open spec fn all_collections(l: LedgerView) -> Seq<Seq<char>> {
    keys(l.collections)
}

/// The addresses of the collections that are shown, in the order of the
/// ledger.
pub open spec fn shown_collections(l: LedgerView) -> Seq<Seq<char>> {
    keys(l.collections.filter(|c: CollectionView| c.is_show))
}

/// The addresses of all participants of a collection, in the order in
/// which they joined.
pub open spec fn all_addresses(l: LedgerView, collection_address: Seq<char>) -> Result<Seq<Seq<char>>, ContractError> {
    match find(l.collections, collection_address) {
        None => Err(ContractError::InvalidCollection),
        Some(i) => Ok(keys(l.collections[i].users)),
    }
}

/// A staked NFT as a query shows it.
pub open spec fn shown_nft(n: NftInfoView) -> StakedNftView {
    StakedNftView { nft_id: n.nft_id, airdrop: n.airdrop, lock_time: n.lock_time }
}

/// Those of the NFTs that are staked under `collection`, as a query shows
/// them.
pub open spec fn shown_nfts(nfts: Seq<NftInfoView>, collection: Seq<char>) -> Seq<StakedNftView> {
    nfts.filter(|n: NftInfoView| n.collection_address == collection).map_values(|n: NftInfoView| shown_nft(n))
}

/// The answer to the query for the NFTs that `address` has staked in a
/// collection: nothing for somebody who never staked there.
pub open spec fn staked_nfts_answer(l: LedgerView, address: Seq<char>, collection_address: Seq<char>) -> Result<
    Seq<StakedNftView>,
    ContractError,
> {
    match find(l.collections, collection_address) {
        None => Err(ContractError::InvalidCollection),
        Some(i) => match find(l.collections[i].users, address) {
            None => Ok(Seq::empty()),
            Some(j) => Ok(shown_nfts(l.collections[i].users[j].staked_nfts, collection_address)),
        },
    }
}

/// The participant found under `address` has an NFT staked under
/// `collection`.
pub open spec fn stakes_in(users: Seq<UserInfoView>, address: Seq<char>, collection: Seq<char>) -> bool {
    match find(users, address) {
        None => false,
        Some(j) => shown_nfts(users[j].staked_nfts, collection).len() > 0,
    }
}

/// The answer to the query for the participants of a collection: the
/// addresses of those who have an NFT staked there. A collection that is
/// not registered has none.
pub open spec fn user_list_answer(l: LedgerView, collection_address: Seq<char>) -> Seq<Seq<char>> {
    match find(l.collections, collection_address) {
        None => Seq::empty(),
        Some(i) => keys(
            l.collections[i].users.filter(
                |u: UserInfoView| stakes_in(l.collections[i].users, u.address, collection_address),
            ),
        ),
    }
}

/// The answer to the query for the number of locked NFTs: nothing in a
/// collection that is not registered.
pub open spec fn total_locked_answer(l: LedgerView, env: EnvView, collection_address: Seq<char>) -> nat {
    match find(l.collections, collection_address) {
        None => 0,
        Some(i) => locked_count(l.collections[i], env.time),
    }
}

/// The answer to the query for what `address` has earned in a collection:
/// nothing for somebody who never staked there.
pub open spec fn earn_infos_answer(l: LedgerView, address: Seq<char>, collection_address: Seq<char>) -> Result<
    EarnInfosView,
    ContractError,
> {
    match find(l.collections, collection_address) {
        None => Err(ContractError::InvalidCollection),
        Some(i) => match find(l.collections[i].users, address) {
            None => Ok(EarnInfosView { total_earned: 0, claimable: 0, earn_infos: Seq::empty() }),
            Some(j) => Ok(
                EarnInfosView {
                    total_earned: l.collections[i].users[j].total_earnd,
                    claimable: l.collections[i].users[j].claimable,
                    earn_infos: l.collections[i].users[j].earn_infos,
                },
            ),
        },
    }
}

/// The answer to the query for the pools of a collection: empty pools for
/// one that is not registered.
pub open spec fn airdrop_infos_answer(l: LedgerView, address: Seq<char>) -> AirdropInfosView {
    match find(l.collections, address) {
        None => AirdropInfosView { total_airdrop: 0, airdropable: 0, airdrop_infos: Seq::empty() },
        Some(i) => AirdropInfosView {
            total_airdrop: l.collections[i].total_airdrop,
            airdropable: l.collections[i].airdropable,
            airdrop_infos: l.collections[i].airdrop_infos,
        },
    }
}

} // verus!
