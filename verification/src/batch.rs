//! Going through a batch of NFT ids, one after the other.
use vstd::prelude::*;
use crate::error::ContractError;
use crate::lookup::{find, find_record, keys, lemma_position};
use crate::staking::{Unstaking, restake_nfts, unstake_nfts, unstake_step};
use crate::state::{NftInfo, NftInfoView, views};

verus! {

/// A copy of the list.
pub(crate) fn copy_nfts(nfts: &Vec<NftInfo>) -> (copy: Vec<NftInfo>)
    ensures
        views(copy@) == views(nfts@),
{
    let mut copy: Vec<NftInfo> = Vec::new();
    let mut k: usize = 0;
    while k < nfts.len()
        invariant
            k <= nfts.len(),
            copy@.len() == k,
            forall|m: int| 0 <= m < k ==> (#[trigger] copy@[m])@ == nfts@[m]@,
        decreases nfts.len() - k,
    {
        copy.push(
            NftInfo {
                nft_id: nfts[k].nft_id.clone(),
                lock_time: nfts[k].lock_time,
                airdrop: nfts[k].airdrop,
                collection_address: nfts[k].collection_address.clone(),
            },
        );
        k += 1;
    }
    assert(views(copy@) =~~= views(nfts@));
    copy
}

/// Once unstaking has failed at an id, it has failed for good.
pub proof fn lemma_unstake_failure_stays(
    nfts: Seq<NftInfoView>,
    ids: Seq<Seq<char>>,
    n: nat,
    m: nat,
    now: nat,
    collection: Seq<char>,
)
    requires
        n <= m,
        unstake_nfts(nfts, ids, n, now, collection) is Err,
    ensures
        unstake_nfts(nfts, ids, m, now, collection) == unstake_nfts(nfts, ids, n, now, collection),
    decreases m,
{
    if n < m {
        lemma_unstake_failure_stays(nfts, ids, n, (m - 1) as nat, now, collection);
    }
}

/// Once restaking has failed at an id, it has failed for good.
pub proof fn lemma_restake_failure_stays(
    nfts: Seq<NftInfoView>,
    ids: Seq<Seq<char>>,
    n: nat,
    m: nat,
    now: nat,
    duration: nat,
    collection: Seq<char>,
)
    requires
        n <= m,
        restake_nfts(nfts, ids, n, now, duration, collection) is Err,
    ensures
        restake_nfts(nfts, ids, m, now, duration, collection) == restake_nfts(
            nfts,
            ids,
            n,
            now,
            duration,
            collection,
        ),
    decreases m,
{
    if n < m {
        lemma_restake_failure_stays(nfts, ids, n, (m - 1) as nat, now, duration, collection);
    }
}

/// Restaking changes neither which NFTs there are, nor their ids, nor the
/// collection they are staked under.
pub proof fn lemma_restake_keeps_ids(
    nfts: Seq<NftInfoView>,
    ids: Seq<Seq<char>>,
    n: nat,
    now: nat,
    duration: nat,
    collection: Seq<char>,
)
    requires
        restake_nfts(nfts, ids, n, now, duration, collection) is Ok,
    ensures
        ({
            let after = restake_nfts(nfts, ids, n, now, duration, collection)->Ok_0;
            &&& after.len() == nfts.len()
            &&& keys(after) == keys(nfts)
            &&& forall|k: int|
                0 <= k < nfts.len() ==> (#[trigger] after[k]).collection_address == nfts[k].collection_address
        }),
    decreases n,
{
    if n > 0 {
        let so_far = restake_nfts(nfts, ids, (n - 1) as nat, now, duration, collection)->Ok_0;
        lemma_restake_keeps_ids(nfts, ids, (n - 1) as nat, now, duration, collection);
        let after = restake_nfts(nfts, ids, n, now, duration, collection)->Ok_0;
        assert(keys(after) =~= keys(so_far));
    }
}

/// An NFT that restaking has locked anew stays so while the rest of the
/// batch is restaked.
pub proof fn lemma_restake_renewal_stays(
    nfts: Seq<NftInfoView>,
    ids: Seq<Seq<char>>,
    n: nat,
    m: nat,
    k: int,
    now: nat,
    duration: nat,
    collection: Seq<char>,
)
    requires
        n <= m,
        restake_nfts(nfts, ids, m, now, duration, collection) is Ok,
        restake_nfts(nfts, ids, n, now, duration, collection) is Ok,
        0 <= k < nfts.len(),
        restake_nfts(nfts, ids, n, now, duration, collection)->Ok_0[k].lock_time == now + duration,
    ensures
        restake_nfts(nfts, ids, m, now, duration, collection)->Ok_0[k].lock_time == now + duration,
    decreases m,
{
    if n < m {
        if restake_nfts(nfts, ids, (m - 1) as nat, now, duration, collection) is Err {
            lemma_restake_failure_stays(nfts, ids, (m - 1) as nat, m, now, duration, collection);
        }
        lemma_restake_renewal_stays(nfts, ids, n, (m - 1) as nat, k, now, duration, collection);
        lemma_restake_keeps_ids(nfts, ids, (m - 1) as nat, now, duration, collection);
    }
}

/// Unstaking leaves only NFTs that were there before: where those all
/// fit the machine's numbers, so do the ones that are left.
pub proof fn lemma_unstake_leaves_fitting(
    nfts: Seq<NftInfoView>,
    ids: Seq<Seq<char>>,
    n: nat,
    now: nat,
    collection: Seq<char>,
)
    requires
        unstake_nfts(nfts, ids, n, now, collection) is Ok,
        forall|k: int| 0 <= k < nfts.len() ==> (#[trigger] nfts[k]).fits(),
    ensures
        forall|k: int|
            0 <= k < unstake_nfts(nfts, ids, n, now, collection)->Ok_0.nfts.len() ==> (#[trigger] unstake_nfts(
                nfts,
                ids,
                n,
                now,
                collection,
            )->Ok_0.nfts[k]).fits(),
    decreases n,
{
    if n > 0 {
        lemma_unstake_leaves_fitting(nfts, ids, (n - 1) as nat, now, collection);
        let so_far = unstake_nfts(nfts, ids, (n - 1) as nat, now, collection)->Ok_0;
        let left = unstake_nfts(nfts, ids, n, now, collection)->Ok_0;
        let at = find(so_far.nfts, ids[n - 1])->Some_0;
        lemma_position(keys(so_far.nfts), ids[n - 1]);
        assert forall|k: int| 0 <= k < left.nfts.len() implies (#[trigger] left.nfts[k]).fits() by {
            if k < at {
                assert(so_far.nfts[k].fits());
            } else {
                assert(so_far.nfts[k + 1].fits());
            }
        }
    }
}

/// Unstaking leaves only NFTs that were there before.
pub proof fn lemma_unstake_leaves_held(
    nfts: Seq<NftInfoView>,
    ids: Seq<Seq<char>>,
    n: nat,
    now: nat,
    collection: Seq<char>,
)
    requires
        unstake_nfts(nfts, ids, n, now, collection) is Ok,
    ensures
        forall|k: int|
            0 <= k < unstake_nfts(nfts, ids, n, now, collection)->Ok_0.nfts.len() ==> nfts.contains(
                #[trigger] unstake_nfts(nfts, ids, n, now, collection)->Ok_0.nfts[k],
            ),
    decreases n,
{
    let left = unstake_nfts(nfts, ids, n, now, collection)->Ok_0;
    if n == 0 {
        assert forall|k: int| 0 <= k < left.nfts.len() implies nfts.contains(#[trigger] left.nfts[k]) by {
            assert(nfts[k] == left.nfts[k]);
        }
    } else {
        lemma_unstake_leaves_held(nfts, ids, (n - 1) as nat, now, collection);
        let so_far = unstake_nfts(nfts, ids, (n - 1) as nat, now, collection)->Ok_0;
        let at = find(so_far.nfts, ids[n - 1])->Some_0;
        lemma_position(keys(so_far.nfts), ids[n - 1]);
        assert forall|k: int| 0 <= k < left.nfts.len() implies nfts.contains(#[trigger] left.nfts[k]) by {
            if k < at {
                assert(left.nfts[k] == so_far.nfts[k]);
            } else {
                assert(left.nfts[k] == so_far.nfts[k + 1]);
            }
        }
    }
}

/// Takes the NFTs `token_id` out of a copy of `nfts`, one after the
/// other, and counts those whose lock has yet to run out at the time `now`.
/// It fails at the first id that is not in what is left of the copy, or
/// whose NFT is staked under another collection.
pub(crate) fn unstake_scan(nfts: &Vec<NftInfo>, token_id: &Vec<String>, now: u64, collection: &String) -> (r: Result<
    (Vec<NftInfo>, usize),
    ContractError,
>)
    ensures
        match unstake_nfts(views(nfts@), views(token_id@), token_id@.len(), now as nat, collection@) {
            Ok(left) => r matches Ok((rest, early)) && views(rest@) == left.nfts && early == left.early,
            Err(e) => r == Err::<(Vec<NftInfo>, usize), ContractError>(e),
        },
{
    let ghost held = views(nfts@);
    let ghost ids = views(token_id@);
    let mut rest = copy_nfts(nfts);
    let mut early: usize = 0;
    let mut n: usize = 0;
    while n < token_id.len()
        invariant
            n <= token_id.len(),
            early <= n,
            held == views(nfts@),
            ids == views(token_id@),
            unstake_nfts(held, ids, n as nat, now as nat, collection@) == Ok::<Unstaking, ContractError>(
                Unstaking { nfts: views(rest@), early: early as nat },
            ),
        decreases token_id.len() - n,
    {
        let ghost so_far = Unstaking { nfts: views(rest@), early: early as nat };
        let k = match find_record(&rest, &token_id[n]) {
            None => {
                proof {
                    assert(unstake_nfts(held, ids, (n + 1) as nat, now as nat, collection@) is Err);
                    lemma_unstake_failure_stays(held, ids, (n + 1) as nat, ids.len(), now as nat, collection@);
                }
                return Err(ContractError::NoStakedNft);
            },
            Some(k) => k,
        };
        if rest[k].collection_address != *collection {
            proof {
                assert(unstake_nfts(held, ids, (n + 1) as nat, now as nat, collection@) is Err);
                lemma_unstake_failure_stays(held, ids, (n + 1) as nat, ids.len(), now as nat, collection@);
            }
            return Err(ContractError::InvalidCw721Token);
        }
        if rest[k].lock_time > now {
            early += 1;
        }
        rest.remove(k);
        proof {
            assert(views(rest@) =~~= so_far.nfts.remove(k as int));
            assert(unstake_step(so_far, ids[n as int], now as nat, collection@) == Ok::<Unstaking, ContractError>(
                Unstaking { nfts: views(rest@), early: early as nat },
            ));
        }
        n += 1;
    }
    Ok((rest, early))
}

/// The id names one of the NFTs, and the lock of that NFT has run out at
/// the time `now`.
pub open spec fn names_unlocked(nfts: Seq<NftInfoView>, id: Seq<char>, now: nat) -> bool {
    match find(nfts, id) {
        Some(k) => nfts[k].lock_time <= now,
        None => false,
    }
}

/// One of the first `n` ids names an NFT whose lock has run out at the
/// time `now`.
pub open spec fn renews(nfts: Seq<NftInfoView>, ids: Seq<Seq<char>>, n: nat, now: nat) -> bool {
    exists|m: int| 0 <= m < n && #[trigger] names_unlocked(nfts, ids[m], now)
}

/// Restaking a batch that names no NFT whose lock has run out leaves the
/// NFTs as they are.
pub proof fn lemma_nothing_renewed(
    nfts: Seq<NftInfoView>,
    ids: Seq<Seq<char>>,
    n: nat,
    now: nat,
    duration: nat,
    collection: Seq<char>,
)
    requires
        restake_nfts(nfts, ids, n, now, duration, collection) is Ok,
        !renews(nfts, ids, n, now),
    ensures
        restake_nfts(nfts, ids, n, now, duration, collection) == Ok::<Seq<NftInfoView>, ContractError>(nfts),
    decreases n,
{
    if n > 0 {
        assert(!renews(nfts, ids, (n - 1) as nat, now)) by {
            if renews(nfts, ids, (n - 1) as nat, now) {
                let m = choose|m: int|
                    0 <= m < n - 1 && #[trigger] names_unlocked(nfts, ids[m], now as nat);
                assert(0 <= m < n && names_unlocked(nfts, ids[m], now as nat));
            }
        }
        lemma_nothing_renewed(nfts, ids, (n - 1) as nat, now, duration, collection);
        assert(!names_unlocked(nfts, ids[n - 1], now)) by {
            if names_unlocked(nfts, ids[n - 1], now) {
                assert(0 <= n - 1 < n && names_unlocked(nfts, ids[n - 1], now));
            }
        }
    }
}

/// Restaking a batch that names an NFT whose lock has run out leaves an
/// NFT that is locked for the lock period from the time of the call.
pub proof fn lemma_something_renewed(
    nfts: Seq<NftInfoView>,
    ids: Seq<Seq<char>>,
    n: nat,
    now: nat,
    duration: nat,
    collection: Seq<char>,
)
    requires
        restake_nfts(nfts, ids, n, now, duration, collection) is Ok,
        renews(nfts, ids, n, now),
    ensures
        exists|k: int|
            0 <= k < nfts.len() && (#[trigger] restake_nfts(nfts, ids, n, now, duration, collection)->Ok_0[k]).lock_time
                == now + duration,
    decreases n,
{
    let after = restake_nfts(nfts, ids, n, now, duration, collection)->Ok_0;
    if n > 0 {
        let so_far = restake_nfts(nfts, ids, (n - 1) as nat, now, duration, collection)->Ok_0;
        lemma_restake_keeps_ids(nfts, ids, (n - 1) as nat, now, duration, collection);
        lemma_position(keys(so_far), ids[n - 1]);
        if renews(nfts, ids, (n - 1) as nat, now) {
            lemma_something_renewed(nfts, ids, (n - 1) as nat, now, duration, collection);
            let k = choose|k: int| 0 <= k < nfts.len() && (#[trigger] so_far[k]).lock_time == now + duration;
            assert(after[k].lock_time == now + duration);
        } else {
            lemma_nothing_renewed(nfts, ids, (n - 1) as nat, now, duration, collection);
            let m = choose|m: int|
                0 <= m < n && #[trigger] names_unlocked(nfts, ids[m], now as nat);
            if m < n - 1 {
                assert(0 <= m < n - 1 && names_unlocked(nfts, ids[m], now as nat));
            }
            let k = find(nfts, ids[n - 1])->Some_0;
            assert(after[k].lock_time == now + duration);
        }
    }
}

/// Whether every one of `token_id` names one of `nfts` that is staked
/// under `collection`, and if so, whether one of them names an NFT whose lock
/// has run out at the time `now`. The answer is the same for every lock
/// period.
pub(crate) fn restake_check(nfts: &Vec<NftInfo>, token_id: &Vec<String>, now: u64, duration: Ghost<nat>, collection: &String) -> (r: Result<
    bool,
    ContractError,
>)
    ensures
        match restake_nfts(views(nfts@), views(token_id@), token_id@.len(), now as nat, duration@, collection@) {
            Ok(_) => r == Ok::<bool, ContractError>(renews(views(nfts@), views(token_id@), token_id@.len(), now as nat)),
            Err(e) => r == Err::<bool, ContractError>(e),
        },
{
    let ghost held = views(nfts@);
    let ghost ids = views(token_id@);
    let mut any = false;
    let mut n: usize = 0;
    while n < token_id.len()
        invariant
            n <= token_id.len(),
            held == views(nfts@),
            ids == views(token_id@),
            restake_nfts(held, ids, n as nat, now as nat, duration@, collection@) is Ok,
            any == renews(held, ids, n as nat, now as nat),
        decreases token_id.len() - n,
    {
        proof {
            lemma_restake_keeps_ids(held, ids, n as nat, now as nat, duration@, collection@);
        }
        let k = match find_record(nfts, &token_id[n]) {
            None => {
                proof {
                    assert(restake_nfts(held, ids, (n + 1) as nat, now as nat, duration@, collection@) is Err);
                    lemma_restake_failure_stays(
                        held,
                        ids,
                        (n + 1) as nat,
                        ids.len(),
                        now as nat,
                        duration@,
                        collection@,
                    );
                }
                return Err(ContractError::NoStakedNft);
            },
            Some(k) => k,
        };
        if nfts[k].collection_address != *collection {
            proof {
                assert(restake_nfts(held, ids, (n + 1) as nat, now as nat, duration@, collection@) is Err);
                lemma_restake_failure_stays(
                    held,
                    ids,
                    (n + 1) as nat,
                    ids.len(),
                    now as nat,
                    duration@,
                    collection@,
                );
            }
            return Err(ContractError::InvalidCw721Msg);
        }
        proof {
            let before = renews(held, ids, n as nat, now as nat);
            let after = renews(held, ids, (n + 1) as nat, now as nat);
            if before {
                let m = choose|m: int|
                    0 <= m < n && #[trigger] names_unlocked(held, ids[m], now as nat);
                assert(0 <= m < n + 1 && names_unlocked(held, ids[m], now as nat));
            }
            if held[k as int].lock_time <= now {
                assert(0 <= n < n + 1 && names_unlocked(held, ids[n as int], now as nat));
            }
            if after && !before {
                let m = choose|m: int|
                    0 <= m < n + 1 && #[trigger] names_unlocked(held, ids[m], now as nat);
                if m < n {
                    assert(0 <= m < n && names_unlocked(held, ids[m], now as nat));
                }
            }
        }
        if nfts[k].lock_time <= now {
            any = true;
        }
        n += 1;
    }
    Ok(any)
}

} // verus!
