//! What each call does, stated on the views of the records.
//!
//! A call either fails, and the ledger stays as it was, or it yields the next
//! ledger together with the instructions for the host. The functions of this
//! file compute that outcome in unbounded arithmetic.
use vstd::prelude::*;
use crate::error::ContractError;
use crate::host::{CosmosMsgView, Response};
use crate::lookup::find;
use crate::state::{CollectionView, ConfigView, LedgerView};

verus! {

/// The outcome of a call: the next ledger and the instructions, or the
/// reason for which the call is refused.
pub type Transition = Result<(LedgerView, Seq<CosmosMsgView>), ContractError>;

/// An outcome that leaves the ledger as it is and instructs nothing.
pub open spec fn unchanged(l: LedgerView) -> Transition {
    Ok((l, Seq::empty()))
}

/// Every instruction of `msgs` can be handed to the host: none is a call
/// whose message cannot be encoded.
pub open spec fn all_encode(msgs: Seq<CosmosMsgView>) -> bool {
    forall|i: int| 0 <= i < msgs.len() ==> (#[trigger] msgs[i]).encodes()
}

/// The call that took the ledger from `pre` to `post` and returned `r` did
/// what `want` says.
///
/// Where `want` is a refusal, `r` is that refusal. Where `want` is a next
/// ledger with instructions that can all be encoded, `r` holds those
/// instructions and `post` is that ledger. Where one of the instructions
/// cannot be encoded, `r` is the encoder's error. A call that fails leaves the
/// ledger as it was.
pub open spec fn meets(want: Transition, pre: LedgerView, post: LedgerView, r: Result<Response, ContractError>) -> bool {
    match want {
        Err(e) => r == Err::<Response, ContractError>(e) && post == pre,
        Ok((next, msgs)) => if all_encode(msgs) {
            r matches Ok(response) && post == next && response@ == msgs
        } else {
            r matches Err(e) && e is Std && post == pre
        },
    }
}

/// The outcome can be held in the machine's numbers: no amount of the next
/// ledger is beyond 128 bits, no time beyond 64, and no payment is negative
/// or beyond 128 bits.
pub open spec fn representable(want: Transition) -> bool {
    want matches Ok((next, msgs)) ==> {
        &&& next.fits()
        &&& forall|i: int| 0 <= i < msgs.len() ==> (#[trigger] msgs[i]).fits()
    }
}

/// `who` may change the ledger's settings and register collections.
pub open spec fn is_admin(cfg: ConfigView, who: Seq<char>) -> bool {
    who == cfg.owner || who == cfg.creator
}

/// `who` may run the collection `c`: its owner, or the ledger's.
pub open spec fn is_collection_admin(cfg: ConfigView, c: CollectionView, who: Seq<char>) -> bool {
    who == c.owner || who == cfg.owner
}

/// The ledger with `c` in the place `i` of its collections.
pub open spec fn put_collection(l: LedgerView, i: int, c: CollectionView) -> LedgerView {
    LedgerView { collections: l.collections.update(i, c), ..l }
}

/// The ledger with other settings.
pub open spec fn put_config(l: LedgerView, cfg: ConfigView) -> LedgerView {
    LedgerView { config: cfg, ..l }
}

/// Whether `address` may change the settings.
pub open spec fn check_owner_model(l: LedgerView, address: Seq<char>) -> Transition {
    if is_admin(l.config, address) {
        unchanged(l)
    } else {
        Err(ContractError::Unauthorized)
    }
}

/// Whether the collection is registered and enabled.
pub open spec fn check_enabled_model(l: LedgerView, collection_address: Seq<char>) -> Transition {
    match find(l.collections, collection_address) {
        None => Err(ContractError::InvalidCollection),
        Some(i) => if l.collections[i].is_enabled {
            unchanged(l)
        } else {
            Err(ContractError::Disabled)
        },
    }
}

/// Whether the collection is registered and has an airdrop round open.
pub open spec fn check_airdrop_start_model(l: LedgerView, collection_address: Seq<char>) -> Transition {
    match find(l.collections, collection_address) {
        None => Err(ContractError::InvalidCollection),
        Some(i) => if l.collections[i].is_started {
            unchanged(l)
        } else {
            Err(ContractError::NotStarted)
        },
    }
}

/// Whether the collection is registered and `address` may run it.
pub open spec fn check_collection_owner_model(
    l: LedgerView,
    collection_address: Seq<char>,
    address: Seq<char>,
) -> Transition {
    match find(l.collections, collection_address) {
        None => Err(ContractError::InvalidCollection),
        Some(i) => if is_collection_admin(l.config, l.collections[i], address) {
            unchanged(l)
        } else {
            Err(ContractError::Unauthorized)
        },
    }
}

/// A new owner for the ledger.
pub open spec fn update_owner_model(l: LedgerView, address: Seq<char>, owner: Seq<char>) -> Transition {
    if !is_admin(l.config, address) {
        Err(ContractError::Unauthorized)
    } else {
        Ok((put_config(l, ConfigView { owner, ..l.config }), Seq::empty()))
    }
}

/// A new address for the ledger's share of the fees.
pub open spec fn update_fee_address_model(l: LedgerView, address: Seq<char>, fee_address: Seq<char>) -> Transition {
    if !is_admin(l.config, address) {
        Err(ContractError::Unauthorized)
    } else {
        Ok((put_config(l, ConfigView { fee_address, ..l.config }), Seq::empty()))
    }
}

/// A new flat fee for staking and restaking.
pub open spec fn update_tx_fee_model(l: LedgerView, address: Seq<char>, tx_fee: nat) -> Transition {
    if !is_admin(l.config, address) {
        Err(ContractError::Unauthorized)
    } else {
        Ok((put_config(l, ConfigView { tx_fee, ..l.config }), Seq::empty()))
    }
}

/// A collection as it is right after registration: enabled and shown, no
/// round open, nothing charged, nobody staking.
pub open spec fn fresh_collection(
    collection_address: Seq<char>,
    owner: Seq<char>,
    cw20_address: Seq<char>,
    unstaking_fee: nat,
    unstaking_fee_percent: nat,
) -> CollectionView {
    CollectionView {
        address: collection_address,
        owner,
        total_airdrop: 0,
        airdropable: 0,
        airdrop_infos: Seq::empty(),
        duration: 0,
        started_at: 0,
        fee_address: owner,
        cw20_address,
        is_started: false,
        is_enabled: true,
        is_show: true,
        unstaking_fee,
        unstaking_fee_percent,
        users: Seq::empty(),
    }
}

/// The ledger with `c` under its address: in the place of the collection
/// that was there, or behind the others.
pub open spec fn save_collection(l: LedgerView, c: CollectionView) -> LedgerView {
    match find(l.collections, c.address) {
        Some(i) => put_collection(l, i, c),
        None => LedgerView { collections: l.collections.push(c), ..l },
    }
}

/// Registration of a collection. One that was registered under the address
/// before is replaced by a fresh one.
pub open spec fn registe_collection_model(
    l: LedgerView,
    address: Seq<char>,
    collection_address: Seq<char>,
    owner: Seq<char>,
    cw20_address: Seq<char>,
    new_unstaking_fee: nat,
    new_unstaking_fee_percent: nat,
) -> Transition {
    if !is_admin(l.config, address) {
        Err(ContractError::Unauthorized)
    } else {
        Ok(
            (
                save_collection(
                    l,
                    fresh_collection(
                        collection_address,
                        owner,
                        cw20_address,
                        new_unstaking_fee,
                        new_unstaking_fee_percent,
                    ),
                ),
                Seq::empty(),
            ),
        )
    }
}

/// A new fee for unstaking early, and a new share of it for the ledger,
/// set by whoever may run the collection.
pub open spec fn update_collection_fee_model(
    l: LedgerView,
    address: Seq<char>,
    collection_address: Seq<char>,
    new_unstaking_fee: nat,
    new_unstaking_fee_percent: nat,
) -> Transition {
    match find(l.collections, collection_address) {
        None => Err(ContractError::InvalidCollection),
        Some(i) => if !is_collection_admin(l.config, l.collections[i], address) {
            Err(ContractError::Unauthorized)
        } else {
            Ok(
                (
                    put_collection(
                        l,
                        i,
                        CollectionView {
                            unstaking_fee: new_unstaking_fee,
                            unstaking_fee_percent: new_unstaking_fee_percent,
                            ..l.collections[i]
                        },
                    ),
                    Seq::empty(),
                ),
            )
        },
    }
}

/// Whether the collection is listed among the shown ones, set by whoever
/// may run the collection.
pub open spec fn update_collection_state_model(
    l: LedgerView,
    address: Seq<char>,
    collection_address: Seq<char>,
    is_show: bool,
) -> Transition {
    match find(l.collections, collection_address) {
        None => Err(ContractError::InvalidCollection),
        Some(i) => if !is_collection_admin(l.config, l.collections[i], address) {
            Err(ContractError::Unauthorized)
        } else {
            Ok((put_collection(l, i, CollectionView { is_show, ..l.collections[i] }), Seq::empty()))
        },
    }
}

/// New terms for a collection, set by whoever may run it.
pub open spec fn update_collection_model(
    l: LedgerView,
    address: Seq<char>,
    collection_address: Seq<char>,
    new_cw20_address: Seq<char>,
    new_owner: Seq<char>,
    new_duration: nat,
    new_fee_address: Seq<char>,
    is_enabled: bool,
) -> Transition {
    match find(l.collections, collection_address) {
        None => Err(ContractError::InvalidCollection),
        Some(i) => if !is_collection_admin(l.config, l.collections[i], address) {
            Err(ContractError::Unauthorized)
        } else {
            Ok(
                (
                    put_collection(
                        l,
                        i,
                        CollectionView {
                            owner: new_owner,
                            cw20_address: new_cw20_address,
                            duration: new_duration,
                            fee_address: new_fee_address,
                            is_enabled,
                            ..l.collections[i]
                        },
                    ),
                    Seq::empty(),
                ),
            )
        },
    }
}

} // verus!
