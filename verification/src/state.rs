//! The ledger's records and their mathematical views.
//!
//! Every record has a view in which text is a `Seq<char>`, a list is a `Seq`
//! and a number is a `nat`. All contracts of the crate speak of these views.
use vstd::prelude::*;

verus! {

/// The views of the records of a list, in order.
pub open spec fn views<T: View>(s: Seq<T>) -> Seq<T::V> {
    Seq::new(s.len(), |i: int| s[i]@)
}

/// The ledger-wide settings.
#[derive(Debug, Clone, PartialEq, Eq)]
pub struct Config {
    pub owner: String,
    pub creator: String,
    pub fee_address: String,
    pub native_token: String,
    pub tx_fee: u128,
}

#[verifier::ext_equal]
pub struct ConfigView {
    pub owner: Seq<char>,
    pub creator: Seq<char>,
    pub fee_address: Seq<char>,
    pub native_token: Seq<char>,
    pub tx_fee: nat,
}

impl View for Config {
    type V = ConfigView;

    open spec fn view(&self) -> ConfigView {
        ConfigView {
            owner: self.owner@,
            creator: self.creator@,
            fee_address: self.fee_address@,
            native_token: self.native_token@,
            tx_fee: self.tx_fee as nat,
        }
    }
}

impl ConfigView {
    /// The fee is one that the machine's numbers can hold.
    pub open spec fn fits(self) -> bool {
        self.tx_fee <= u128::MAX
    }
}

/// The airdrop pool of one reward token in a collection.
#[derive(Debug, Clone, PartialEq, Eq)]
pub struct AirdropInfo {
    pub cw20_address: String,
    pub total_airdrop: u128,
    pub airdropable: u128,
}

#[verifier::ext_equal]
pub struct AirdropInfoView {
    pub cw20_address: Seq<char>,
    pub total_airdrop: nat,
    pub airdropable: nat,
}

impl View for AirdropInfo {
    type V = AirdropInfoView;

    open spec fn view(&self) -> AirdropInfoView {
        AirdropInfoView {
            cw20_address: self.cw20_address@,
            total_airdrop: self.total_airdrop as nat,
            airdropable: self.airdropable as nat,
        }
    }
}

impl AirdropInfoView {
    /// The amounts are such that the machine's numbers can hold them.
    pub open spec fn fits(self) -> bool {
        self.total_airdrop <= u128::MAX && self.airdropable <= u128::MAX
    }
}

/// One NFT that a user has locked in a collection.
#[derive(Debug, Clone, PartialEq, Eq)]
pub struct NftInfo {
    pub nft_id: String,
    pub lock_time: u64,
    pub airdrop: bool,
    pub collection_address: String,
}

#[verifier::ext_equal]
pub struct NftInfoView {
    pub nft_id: Seq<char>,
    pub lock_time: nat,
    pub airdrop: bool,
    pub collection_address: Seq<char>,
}

impl View for NftInfo {
    type V = NftInfoView;

    open spec fn view(&self) -> NftInfoView {
        NftInfoView {
            nft_id: self.nft_id@,
            lock_time: self.lock_time as nat,
            airdrop: self.airdrop,
            collection_address: self.collection_address@,
        }
    }
}

impl NftInfoView {
    /// The lock time is one that the machine's numbers can hold.
    pub open spec fn fits(self) -> bool {
        self.lock_time <= u64::MAX
    }
}

/// What a user has earned in one reward token.
#[derive(Debug, Clone, PartialEq, Eq)]
pub struct EarnInfo {
    pub cw20_address: String,
    pub total_earned: u128,
    pub claimable: u128,
}

#[verifier::ext_equal]
pub struct EarnInfoView {
    pub cw20_address: Seq<char>,
    pub total_earned: nat,
    pub claimable: nat,
}

impl View for EarnInfo {
    type V = EarnInfoView;

    open spec fn view(&self) -> EarnInfoView {
        EarnInfoView {
            cw20_address: self.cw20_address@,
            total_earned: self.total_earned as nat,
            claimable: self.claimable as nat,
        }
    }
}

impl EarnInfoView {
    /// The amounts are such that the machine's numbers can hold them.
    pub open spec fn fits(self) -> bool {
        self.total_earned <= u128::MAX && self.claimable <= u128::MAX
    }
}

/// One participant of a collection.
#[derive(Debug, Clone, PartialEq, Eq)]
pub struct UserInfo {
    pub address: String,
    pub total_earnd: u128,
    pub claimable: u128,
    pub earn_infos: Vec<EarnInfo>,
    pub staked_nfts: Vec<NftInfo>,
}

#[verifier::ext_equal]
pub struct UserInfoView {
    pub address: Seq<char>,
    pub total_earnd: nat,
    pub claimable: nat,
    pub earn_infos: Seq<EarnInfoView>,
    pub staked_nfts: Seq<NftInfoView>,
}

impl View for UserInfo {
    type V = UserInfoView;

    open spec fn view(&self) -> UserInfoView {
        UserInfoView {
            address: self.address@,
            total_earnd: self.total_earnd as nat,
            claimable: self.claimable as nat,
            earn_infos: views(self.earn_infos@),
            staked_nfts: views(self.staked_nfts@),
        }
    }
}

impl UserInfoView {
    /// Every number of the record is one that the machine's numbers can hold.
    pub open spec fn fits(self) -> bool {
        &&& self.total_earnd <= u128::MAX
        &&& self.claimable <= u128::MAX
        &&& forall|i: int| 0 <= i < self.earn_infos.len() ==> (#[trigger] self.earn_infos[i]).fits()
        &&& forall|i: int| 0 <= i < self.staked_nfts.len() ==> (#[trigger] self.staked_nfts[i]).fits()
    }
}

/// One registered NFT collection with its pools and participants.
#[derive(Debug, Clone, PartialEq, Eq)]
pub struct Collection {
    pub address: String,
    pub owner: String,
    pub total_airdrop: u128,
    pub airdropable: u128,
    pub airdrop_infos: Vec<AirdropInfo>,
    pub duration: u64,
    pub started_at: u64,
    pub fee_address: String,
    pub cw20_address: String,
    pub is_started: bool,
    pub is_enabled: bool,
    pub is_show: bool,
    pub unstaking_fee: u128,
    pub unstaking_fee_percent: u64,
    pub users: Vec<UserInfo>,
}

#[verifier::ext_equal]
pub struct CollectionView {
    pub address: Seq<char>,
    pub owner: Seq<char>,
    pub total_airdrop: nat,
    pub airdropable: nat,
    pub airdrop_infos: Seq<AirdropInfoView>,
    pub duration: nat,
    pub started_at: nat,
    pub fee_address: Seq<char>,
    pub cw20_address: Seq<char>,
    pub is_started: bool,
    pub is_enabled: bool,
    pub is_show: bool,
    pub unstaking_fee: nat,
    pub unstaking_fee_percent: nat,
    pub users: Seq<UserInfoView>,
}

impl View for Collection {
    type V = CollectionView;

    open spec fn view(&self) -> CollectionView {
        CollectionView {
            address: self.address@,
            owner: self.owner@,
            total_airdrop: self.total_airdrop as nat,
            airdropable: self.airdropable as nat,
            airdrop_infos: views(self.airdrop_infos@),
            duration: self.duration as nat,
            started_at: self.started_at as nat,
            fee_address: self.fee_address@,
            cw20_address: self.cw20_address@,
            is_started: self.is_started,
            is_enabled: self.is_enabled,
            is_show: self.is_show,
            unstaking_fee: self.unstaking_fee as nat,
            unstaking_fee_percent: self.unstaking_fee_percent as nat,
            users: views(self.users@),
        }
    }
}

impl CollectionView {
    /// Every number of the record is one that the machine's numbers can hold.
    pub open spec fn fits(self) -> bool {
        &&& self.total_airdrop <= u128::MAX
        &&& self.airdropable <= u128::MAX
        &&& self.duration <= u64::MAX
        &&& self.started_at <= u64::MAX
        &&& self.unstaking_fee <= u128::MAX
        &&& self.unstaking_fee_percent <= u64::MAX
        &&& forall|i: int| 0 <= i < self.airdrop_infos.len() ==> (#[trigger] self.airdrop_infos[i]).fits()
        &&& forall|i: int| 0 <= i < self.users.len() ==> (#[trigger] self.users[i]).fits()
    }
}

/// The whole ledger: the settings and every registered collection, each
/// under its address.
#[derive(Debug, Clone, PartialEq, Eq)]
pub struct Ledger {
    pub config: Config,
    pub collections: Vec<Collection>,
}

#[verifier::ext_equal]
pub struct LedgerView {
    pub config: ConfigView,
    pub collections: Seq<CollectionView>,
}

impl View for Ledger {
    type V = LedgerView;

    open spec fn view(&self) -> LedgerView {
        LedgerView { config: self.config@, collections: views(self.collections@) }
    }
}

impl LedgerView {
    /// Every number of the ledger is one that the machine's numbers can hold.
    pub open spec fn fits(self) -> bool {
        &&& self.config.fits()
        &&& forall|i: int| 0 <= i < self.collections.len() ==> (#[trigger] self.collections[i]).fits()
    }
}

} // verus!
