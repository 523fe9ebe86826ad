//! Finding a record by its key.
//!
//! Collections, users, pools, earnings and staked NFTs are all kept in lists
//! and found by a textual key; the first record with the key is the one meant.
use vstd::prelude::*;
use crate::state::{
    AirdropInfo, AirdropInfoView, Collection, CollectionView, EarnInfo, EarnInfoView, NftInfo,
    NftInfoView, UserInfo, UserInfoView, views,
};

verus! {

/// `i` is the first place in `keys` that holds `k`.
pub open spec fn is_first(keys: Seq<Seq<char>>, k: Seq<char>, i: int) -> bool {
    &&& 0 <= i < keys.len()
    &&& keys[i] == k
    &&& forall|j: int| 0 <= j < i ==> keys[j] != k
}

/// The first place in `keys` that holds `k`, if there is one.
pub open spec fn position(keys: Seq<Seq<char>>, k: Seq<char>) -> Option<int> {
    if exists|i: int| is_first(keys, k, i) {
        Some(choose|i: int| is_first(keys, k, i))
    } else {
        None
    }
}

/// A view that is found by a key.
pub trait Keyed {
    spec fn key(&self) -> Seq<char>;
}

impl Keyed for CollectionView {
    open spec fn key(&self) -> Seq<char> {
        self.address
    }
}

impl Keyed for UserInfoView {
    open spec fn key(&self) -> Seq<char> {
        self.address
    }
}

impl Keyed for NftInfoView {
    open spec fn key(&self) -> Seq<char> {
        self.nft_id
    }
}

impl Keyed for AirdropInfoView {
    open spec fn key(&self) -> Seq<char> {
        self.cw20_address
    }
}

impl Keyed for EarnInfoView {
    open spec fn key(&self) -> Seq<char> {
        self.cw20_address
    }
}

/// The keys of a list of views, in order.
pub open spec fn keys<T: Keyed>(s: Seq<T>) -> Seq<Seq<char>> {
    Seq::new(s.len(), |i: int| s[i].key())
}

/// The place of the first view in `s` whose key is `k`.
pub open spec fn find<T: Keyed>(s: Seq<T>, k: Seq<char>) -> Option<int> {
    position(keys(s), k)
}

/// A first place is the position.
pub proof fn lemma_position_is(keys: Seq<Seq<char>>, k: Seq<char>, i: int)
    requires
        is_first(keys, k, i),
    ensures
        position(keys, k) == Some(i),
{
    let c = choose|c: int| is_first(keys, k, c);
    assert(is_first(keys, k, c));
    if c < i {
        assert(keys[c] != k);
    }
    if i < c {
        assert(keys[i] != k);
    }
}

/// What `position` returns, spelled out.
pub proof fn lemma_position(keys: Seq<Seq<char>>, k: Seq<char>)
    ensures
        match position(keys, k) {
            Some(i) => is_first(keys, k, i),
            None => forall|j: int| 0 <= j < keys.len() ==> keys[j] != k,
        },
    decreases keys.len(),
{
    if position(keys, k) is None {
        if exists|j: int| 0 <= j < keys.len() && keys[j] == k {
            let j = choose|j: int| 0 <= j < keys.len() && keys[j] == k;
            lemma_first_exists(keys, k, j);
        }
    }
}

/// Where the key occurs at all, it has a first place.
pub proof fn lemma_first_exists(keys: Seq<Seq<char>>, k: Seq<char>, j: int)
    requires
        0 <= j < keys.len(),
        keys[j] == k,
    ensures
        exists|i: int| is_first(keys, k, i),
    decreases j,
{
    if exists|m: int| 0 <= m < j && keys[m] == k {
        let m = choose|m: int| 0 <= m < j && keys[m] == k;
        lemma_first_exists(keys, k, m);
    } else {
        assert(is_first(keys, k, j));
    }
}

/// A record whose view is found by a key, with the key at hand.
pub trait Record: View where Self::V: Keyed {
    fn key(&self) -> (k: &String)
        ensures
            k@ == self@.key(),
    ;
}

impl Record for Collection {
    fn key(&self) -> (k: &String) {
        &self.address
    }
}

impl Record for UserInfo {
    fn key(&self) -> (k: &String) {
        &self.address
    }
}

impl Record for NftInfo {
    fn key(&self) -> (k: &String) {
        &self.nft_id
    }
}

impl Record for AirdropInfo {
    fn key(&self) -> (k: &String) {
        &self.cw20_address
    }
}

impl Record for EarnInfo {
    fn key(&self) -> (k: &String) {
        &self.cw20_address
    }
}

/// Finds the first record of `list` whose key is `k`.
pub fn find_record<T: Record>(list: &Vec<T>, k: &String) -> (r: Option<usize>) where T::V: Keyed
    ensures
        match r {
            Some(i) => find(views(list@), k@) == Some(i as int) && i < list.len(),
            None => find(views(list@), k@) is None,
        },
{
    let mut i: usize = 0;
    while i < list.len()
        invariant
            i <= list.len(),
            forall|j: int| 0 <= j < i ==> keys(views(list@))[j] != k@,
        decreases list.len() - i,
    {
        if *list[i].key() == *k {
            proof {
                lemma_position_is(keys(views(list@)), k@, i as int);
            }
            return Some(i);
        }
        i += 1;
    }
    proof {
        lemma_position(keys(views(list@)), k@);
    }
    None
}

} // verus!
