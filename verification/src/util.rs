//! Checks, settings and registration, and the building of instructions.
use vstd::prelude::*;
use crate::answers::{all_addresses, all_collections, shown_collections};
use crate::error::ContractError;
use crate::host::{CosmosMsg, CosmosMsgView, Denom, Response};
use crate::lookup::{find, find_record, keys};
use crate::model::{
    check_airdrop_start_model, check_collection_owner_model, check_enabled_model, check_owner_model,
    meets, registe_collection_model, update_collection_fee_model, update_collection_model,
    update_collection_state_model, update_fee_address_model, update_owner_model, update_tx_fee_model,
};
use crate::rewards::{
    locked_among, locked_count, locked_nfts, locked_of_users, transfer_from_token_msg, transfer_nft_msg,
    transfer_token_msg,
};
use crate::state::{Collection, CollectionView, Ledger, NftInfo, views};
use crate::wire::{encode_cw20_transfer, encode_cw20_transfer_from, encode_cw721_transfer_nft};

verus! {

/// Passes if `address` is the ledger's owner or its creator.
pub fn check_owner(storage: &Ledger, address: String) -> (r: Result<Response, ContractError>)
    ensures
        meets(check_owner_model(storage@, address@), storage@, storage@, r),
{
    if address != storage.config.owner && address != storage.config.creator {
        return Err(ContractError::Unauthorized);
    }
    Ok(Response::new())
}

/// Passes if the collection is registered and enabled.
pub fn check_enabled(storage: &Ledger, collection_address: String) -> (r: Result<Response, ContractError>)
    ensures
        meets(check_enabled_model(storage@, collection_address@), storage@, storage@, r),
{
    match find_record(&storage.collections, &collection_address) {
        None => Err(ContractError::InvalidCollection),
        Some(i) => {
            if !storage.collections[i].is_enabled {
                return Err(ContractError::Disabled);
            }
            Ok(Response::new())
        },
    }
}

/// Passes if the collection is registered and an airdrop round is open.
pub fn check_airdrop_start(storage: &Ledger, collection_address: String) -> (r: Result<Response, ContractError>)
    ensures
        meets(check_airdrop_start_model(storage@, collection_address@), storage@, storage@, r),
{
    match find_record(&storage.collections, &collection_address) {
        None => Err(ContractError::InvalidCollection),
        Some(i) => {
            if !storage.collections[i].is_started {
                return Err(ContractError::NotStarted);
            }
            Ok(Response::new())
        },
    }
}

/// Passes if the collection is registered and `address` is its owner or the
/// ledger's.
pub fn check_collection_owner(storage: &Ledger, collection_address: String, address: String) -> (r: Result<
    Response,
    ContractError,
>)
    ensures
        meets(check_collection_owner_model(storage@, collection_address@, address@), storage@, storage@, r),
{
    match find_record(&storage.collections, &collection_address) {
        None => Err(ContractError::InvalidCollection),
        Some(i) => {
            if address != storage.collections[i].owner && address != storage.config.owner {
                return Err(ContractError::Unauthorized);
            }
            Ok(Response::new())
        },
    }
}

/// Hands the ledger to a new owner.
pub fn execute_update_owner(storage: &mut Ledger, address: String, owner: String) -> (r: Result<
    Response,
    ContractError,
>)
    ensures
        meets(update_owner_model(old(storage)@, address@, owner@), old(storage)@, final(storage)@, r),
{
    check_owner(storage, address)?;
    storage.config.owner = owner;
    Ok(Response::new())
}

/// Sets the address that receives the ledger's share of the fees.
pub fn execute_update_fee_address(storage: &mut Ledger, address: String, fee_address: String) -> (r: Result<
    Response,
    ContractError,
>)
    ensures
        meets(
            update_fee_address_model(old(storage)@, address@, fee_address@),
            old(storage)@,
            final(storage)@,
            r,
        ),
{
    check_owner(storage, address)?;
    storage.config.fee_address = fee_address;
    Ok(Response::new())
}

/// Sets the flat fee of a call that stakes or restakes.
pub fn execute_update_tx_fee(storage: &mut Ledger, address: String, tx_fee: u128) -> (r: Result<
    Response,
    ContractError,
>)
    ensures
        meets(update_tx_fee_model(old(storage)@, address@, tx_fee as nat), old(storage)@, final(storage)@, r),
{
    check_owner(storage, address)?;
    storage.config.tx_fee = tx_fee;
    Ok(Response::new())
}

/// Registers a collection under `collection_address`. A collection that was
/// registered there before is reset: its pools are empty again and its
/// participants are gone.
pub fn execute_registe_collection(
    storage: &mut Ledger,
    address: String,
    collection_address: String,
    owner: String,
    cw20_address: String,
    new_unstaking_fee: u128,
    new_unstaking_fee_percent: u64,
) -> (r: Result<Response, ContractError>)
    ensures
        meets(
            registe_collection_model(
                old(storage)@,
                address@,
                collection_address@,
                owner@,
                cw20_address@,
                new_unstaking_fee as nat,
                new_unstaking_fee_percent as nat,
            ),
            old(storage)@,
            final(storage)@,
            r,
        ),
{
    check_owner(storage, address)?;
    let place = find_record(&storage.collections, &collection_address);
    let collection = Collection {
        address: collection_address,
        owner: owner.clone(),
        total_airdrop: 0,
        airdropable: 0,
        airdrop_infos: Vec::new(),
        started_at: 0,
        duration: 0,
        fee_address: owner,
        cw20_address,
        is_started: false,
        is_show: true,
        is_enabled: true,
        unstaking_fee: new_unstaking_fee,
        unstaking_fee_percent: new_unstaking_fee_percent,
        users: Vec::new(),
    };
    let ghost fresh = collection@;
    assert(fresh =~~= crate::model::fresh_collection(
        collection_address@,
        owner@,
        cw20_address@,
        new_unstaking_fee as nat,
        new_unstaking_fee_percent as nat,
    ));
    match place {
        Some(i) => {
            storage.collections[i] = collection;
            assert(storage@.collections =~~= old(storage)@.collections.update(i as int, fresh));
        },
        None => {
            storage.collections.push(collection);
            assert(storage@.collections =~~= old(storage)@.collections.push(fresh));
        },
    }
    Ok(Response::new())
}

/// Sets the fee for unstaking early and the ledger's share of it. The
/// caller has to be the collection's owner or the ledger's.
pub fn execute_update_collection_fee(
    storage: &mut Ledger,
    address: String,
    collection_address: String,
    new_unstaking_fee: u128,
    new_unstaking_fee_percent: u64,
) -> (r: Result<Response, ContractError>)
    ensures
        meets(
            update_collection_fee_model(
                old(storage)@,
                address@,
                collection_address@,
                new_unstaking_fee as nat,
                new_unstaking_fee_percent as nat,
            ),
            old(storage)@,
            final(storage)@,
            r,
        ),
{
    check_collection_owner(storage, collection_address.clone(), address)?;
    match find_record(&storage.collections, &collection_address) {
        None => Err(ContractError::InvalidCollection),
        Some(i) => {
            storage.collections[i].unstaking_fee = new_unstaking_fee;
            storage.collections[i].unstaking_fee_percent = new_unstaking_fee_percent;
            assert(storage@.collections =~~= old(storage)@.collections.update(i as int, storage@.collections[i as int]));
            Ok(Response::new())
        },
    }
}

/// Shows or hides the collection in the list of shown collections. The
/// caller has to be the collection's owner or the ledger's.
pub fn execute_update_collection_state(
    storage: &mut Ledger,
    address: String,
    collection_address: String,
    is_show: bool,
) -> (r: Result<Response, ContractError>)
    ensures
        meets(
            update_collection_state_model(old(storage)@, address@, collection_address@, is_show),
            old(storage)@,
            final(storage)@,
            r,
        ),
{
    check_collection_owner(storage, collection_address.clone(), address)?;
    match find_record(&storage.collections, &collection_address) {
        None => Err(ContractError::InvalidCollection),
        Some(i) => {
            storage.collections[i].is_show = is_show;
            assert(storage@.collections =~~= old(storage)@.collections.update(i as int, storage@.collections[i as int]));
            Ok(Response::new())
        },
    }
}

/// Sets the terms of a collection: reward token, owner, lock period, fee
/// address, and whether it is enabled.
pub fn execute_update_collection(
    storage: &mut Ledger,
    address: String,
    collection_address: String,
    new_cw20_address: String,
    new_owner: String,
    new_duration: u64,
    new_fee_address: String,
    is_enabled: bool,
) -> (r: Result<Response, ContractError>)
    ensures
        meets(
            update_collection_model(
                old(storage)@,
                address@,
                collection_address@,
                new_cw20_address@,
                new_owner@,
                new_duration as nat,
                new_fee_address@,
                is_enabled,
            ),
            old(storage)@,
            final(storage)@,
            r,
        ),
{
    check_collection_owner(storage, collection_address.clone(), address)?;
    match find_record(&storage.collections, &collection_address) {
        None => Err(ContractError::InvalidCollection),
        Some(i) => {
            storage.collections[i].owner = new_owner;
            storage.collections[i].cw20_address = new_cw20_address;
            storage.collections[i].duration = new_duration;
            storage.collections[i].fee_address = new_fee_address;
            storage.collections[i].is_enabled = is_enabled;
            assert(storage@.collections =~~= old(storage)@.collections.update(i as int, storage@.collections[i as int]));
            Ok(Response::new())
        },
    }
}

/// Counts the NFTs of the list that are staked under `collection` and whose
/// lock has yet to run out at the time `now`.
pub fn count_locked_nfts(nfts: &Vec<NftInfo>, now: u64, collection: &String) -> (count: usize)
    ensures
        count == locked_nfts(views(nfts@), now as nat, collection@),
{
    let mut count: usize = 0;
    let mut k: usize = 0;
    while k < nfts.len()
        invariant
            k <= nfts.len(),
            count <= k,
            count == locked_among(views(nfts@), now as nat, collection@, k as nat),
        decreases nfts.len() - k,
    {
        if nfts[k].lock_time > now && nfts[k].collection_address == *collection {
            count += 1;
        }
        k += 1;
    }
    count
}

/// Counts the NFTs that are locked in the collection at the time `now`.
pub fn count_locked(collection: &Collection, now: u64) -> (count: u128)
    ensures
        count == locked_count(collection@, now as nat),
{
    let mut count: u128 = 0;
    let mut j: usize = 0;
    while j < collection.users.len()
        invariant
            j <= collection.users.len(),
            count <= j * usize::MAX,
            count == locked_of_users(collection@.users, now as nat, collection@.address, j as nat),
        decreases collection.users.len() - j,
    {
        let locked = count_locked_nfts(&collection.users[j].staked_nfts, now, &collection.address);
        assert(locked <= usize::MAX);
        assert((j + 1) * usize::MAX == j * usize::MAX + usize::MAX) by (nonlinear_arith);
        assert(j * usize::MAX + usize::MAX <= u128::MAX) by (nonlinear_arith)
            requires
                0 <= j < usize::MAX,
                usize::MAX <= 0xffff_ffff_ffff_ffff,
        ;
        count = count + locked as u128;
        j += 1;
    }
    count
}

/// The number of NFTs that are locked in the collection at the time `now`.
pub fn get_in_locktime_nft_count(storage: &Ledger, now: u64, collection_address: String) -> (r: Result<
    u128,
    ContractError,
>)
    ensures
        match find(storage@.collections, collection_address@) {
            Some(i) => r == Ok::<u128, ContractError>(locked_count(storage@.collections[i], now as nat) as u128),
            None => r == Err::<u128, ContractError>(ContractError::InvalidCollection),
        },
{
    match find_record(&storage.collections, &collection_address) {
        None => Err(ContractError::InvalidCollection),
        Some(i) => Ok(count_locked(&storage.collections[i], now)),
    }
}

/// The addresses of all participants of a collection, in the order in
/// which they joined.
pub fn get_all_addresses(storage: &Ledger, collection_address: String) -> (r: Result<Vec<String>, ContractError>)
    ensures
        match r {
            Ok(addresses) => all_addresses(storage@, collection_address@) == Ok::<Seq<Seq<char>>, ContractError>(
                views(addresses@),
            ),
            Err(e) => all_addresses(storage@, collection_address@) == Err::<Seq<Seq<char>>, ContractError>(e),
        },
{
    let i = match find_record(&storage.collections, &collection_address) {
        None => { return Err(ContractError::InvalidCollection); },
        Some(i) => i,
    };
    let mut addresses: Vec<String> = Vec::new();
    let mut j: usize = 0;
    while j < storage.collections[i].users.len()
        invariant
            i < storage.collections.len(),
            j <= storage.collections[i as int].users.len(),
            addresses@.len() == j,
            forall|m: int| 0 <= m < j ==> (#[trigger] addresses@[m])@ == storage@.collections[i as int].users[m].address,
        decreases storage.collections[i as int].users.len() - j,
    {
        addresses.push(storage.collections[i].users[j].address.clone());
        j += 1;
    }
    assert(views(addresses@) =~= keys(storage@.collections[i as int].users));
    Ok(addresses)
}

/// The addresses of all registered collections, in the order of the
/// ledger.
pub fn get_all_collections(storage: &Ledger) -> (collections: Vec<String>)
    ensures
        views(collections@) == all_collections(storage@),
{
    let mut collections: Vec<String> = Vec::new();
    let mut i: usize = 0;
    while i < storage.collections.len()
        invariant
            i <= storage.collections.len(),
            collections@.len() == i,
            forall|m: int| 0 <= m < i ==> (#[trigger] collections@[m])@ == storage@.collections[m].address,
        decreases storage.collections.len() - i,
    {
        collections.push(storage.collections[i].address.clone());
        i += 1;
    }
    assert(views(collections@) =~= keys(storage@.collections));
    collections
}

/// The addresses of the collections that are shown, in the order of the
/// ledger.
pub fn get_all_shown_collections(storage: &Ledger) -> (collections: Vec<String>)
    ensures
        views(collections@) == shown_collections(storage@),
{
    let ghost shown = |c: CollectionView| c.is_show;
    let mut collections: Vec<String> = Vec::new();
    let mut i: usize = 0;
    assert(storage@.collections.take(0).filter(shown) =~= Seq::<CollectionView>::empty()) by {
        reveal(Seq::filter);
    }
    while i < storage.collections.len()
        invariant
            i <= storage.collections.len(),
            shown == |c: CollectionView| c.is_show,
            views(collections@) =~= keys(storage@.collections.take(i as int).filter(shown)),
        decreases storage.collections.len() - i,
    {
        let ghost seen = storage@.collections.take(i as int);
        let ghost more = storage@.collections.take(i + 1);
        proof {
            reveal(Seq::filter);
            assert(more.drop_last() =~= seen);
            assert(more.last() == storage@.collections[i as int]);
        }
        let ghost listed = views(collections@);
        if storage.collections[i].is_show {
            collections.push(storage.collections[i].address.clone());
            proof {
                assert(shown(more.last()));
                assert(more.filter(shown) == seen.filter(shown).push(more.last()));
                assert(views(collections@) =~= listed.push(more.last().address));
                assert(keys(seen.filter(shown).push(more.last())) =~= keys(seen.filter(shown)).push(
                    more.last().address,
                ));
            }
        } else {
            assert(!shown(more.last()));
            assert(more.filter(shown) == seen.filter(shown));
        }
        i += 1;
    }
    assert(storage@.collections.take(i as int) =~= storage@.collections);
    collections
}

/// The call of the contract at `contract_addr` with the message that the
/// encoder gave, or the encoder's error.
pub fn execute_message(contract_addr: String, encoded: Result<Vec<u8>, cosmwasm_std::StdError>) -> (r: Result<
    CosmosMsg,
    ContractError,
>)
    ensures
        match encoded {
            Ok(bytes) => r matches Ok(m) && m@ == (CosmosMsgView::Execute {
                contract_addr: contract_addr@,
                msg: Some(bytes@),
            }),
            Err(e) => r == Err::<CosmosMsg, ContractError>(ContractError::Std(e)),
        },
{
    match encoded {
        Ok(msg) => Ok(CosmosMsg::Execute { contract_addr, msg }),
        Err(e) => Err(ContractError::Std(e)),
    }
}

/// The instruction that moves the NFT `token_id` of `collection` to
/// `recipient`. It fails if and only if the message cannot be encoded.
pub fn transfer_nft_message(collection: String, token_id: String, recipient: String) -> (r: Result<
    CosmosMsg,
    ContractError,
>)
    ensures
        match r {
            Ok(m) => m@ == transfer_nft_msg(collection@, token_id@, recipient@),
            Err(e) => e is Std && !transfer_nft_msg(collection@, token_id@, recipient@).encodes(),
        },
{
    let encoded = encode_cw721_transfer_nft(&recipient, &token_id);
    execute_message(collection, encoded)
}

/// The instruction that pays `amount` of `denom` to `receiver`. For the
/// native currency it always succeeds; for a token it fails if and only if
/// the message cannot be encoded.
pub fn transfer_token_message(denom: Denom, amount: u128, receiver: String) -> (r: Result<CosmosMsg, ContractError>)
    ensures
        match r {
            Ok(m) => m@ == transfer_token_msg(denom@, amount as int, receiver@),
            Err(e) => e is Std && !transfer_token_msg(denom@, amount as int, receiver@).encodes(),
        },
{
    match denom {
        Denom::Native(native_str) => Ok(CosmosMsg::Send { to_address: receiver, denom: native_str, amount }),
        Denom::Cw20(contract) => {
            let encoded = encode_cw20_transfer(&receiver, amount);
            execute_message(contract, encoded)
        },
    }
}

/// The instruction that has a token's contract move `amount` from `owner`
/// to `receiver`. The native currency cannot be pulled; for a token the
/// instruction fails if and only if the message cannot be encoded.
pub fn transfer_from_token_message(denom: Denom, owner: String, receiver: String, amount: u128) -> (r: Result<
    CosmosMsg,
    ContractError,
>)
    ensures
        match denom {
            Denom::Native(_) => r == Err::<CosmosMsg, ContractError>(ContractError::InsufficientCw20),
            Denom::Cw20(contract) => match r {
                Ok(m) => m@ == transfer_from_token_msg(contract@, owner@, receiver@, amount as nat),
                Err(e) => e is Std && !transfer_from_token_msg(contract@, owner@, receiver@, amount as nat).encodes(),
            },
        },
{
    match denom {
        Denom::Native(_native_str) => Err(ContractError::InsufficientCw20),
        Denom::Cw20(contract) => {
            let encoded = encode_cw20_transfer_from(&owner, &receiver, amount);
            execute_message(contract, encoded)
        },
    }
}

} // verus!
