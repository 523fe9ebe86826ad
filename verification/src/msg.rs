//! The messages that reach the ledger and the answers to its queries.
use vstd::prelude::*;
use crate::state::{AirdropInfo, AirdropInfoView, EarnInfo, EarnInfoView, views};

verus! {

/// What sets up a ledger.
#[derive(Debug, Clone, PartialEq, Eq)]
pub struct InstantiateMsg {
    pub owner: String,
    pub fee_address: String,
    pub native_token: String,
    pub tx_fee: u128,
}

/// A call that may change the ledger.
#[derive(Debug, Clone, PartialEq, Eq)]
pub enum ExecuteMsg {
    UpdateOwner { owner: String },
    UpdateFeeAddress { fee_address: String },
    UpdateTxFee { tx_fee: u128 },
    RegisteCollection {
        collection_address: String,
        owner: String,
        new_unstaking_fee: u128,
        new_unstaking_fee_percent: u64,
        cw20_address: String,
    },
    UpdateCollectionFee { collection_address: String, new_unstaking_fee: u128, new_unstaking_fee_percent: u64 },
    UpdateCollectionState { collection_address: String, is_show: bool },
    UpdateCollection {
        collection_address: String,
        new_cw20_address: String,
        new_owner: String,
        new_duration: u64,
        new_fee_address: String,
        is_enabled: bool,
    },
    Charge { collection_address: String },
    ChargeToken { collection_address: String, charge_amount: u128 },
    Withdraw { amount: u128 },
    WithdrawAirdrop { collection_address: String, cw20_address: String, amount: u128 },
    Airdrop { collection_address: String, cw20_address: String, airdrop_amount: u128 },
    AirdropRestart { collection_address: String },
    Restake { collection_address: String, token_id: Vec<String> },
    Unstake { collection_address: String, token_id: Vec<String> },
    Staking { collection_address: String, token_id: Vec<String> },
    Claim { collection_address: String, cw20_address: String },
    TransferNft { collection_address: String, nft_id: String, recipient: String },
}

/// A question that leaves the ledger as it is.
#[derive(Debug, Clone, PartialEq, Eq)]
pub enum QueryMsg {
    GetConfig {  },
    GetCollection { collection_address: String },
    GetUserList { collection_address: String },
    GetCollectionList {  },
    GetShownCollectionList {  },
    GetTotalLocked { collection_address: String },
    GetStakedNfts { address: String, collection_address: String },
    GetEarnInfos { address: String, collection_address: String },
    GetAirdropInfos { address: String },
}

/// The settings that a query shows.
#[derive(Debug, Clone, PartialEq, Eq)]
pub struct ConfigResponse {
    pub owner: String,
    pub fee_address: String,
    pub tx_fee: u128,
}

#[verifier::ext_equal]
pub struct ConfigResponseView {
    pub owner: Seq<char>,
    pub fee_address: Seq<char>,
    pub tx_fee: nat,
}

impl View for ConfigResponse {
    type V = ConfigResponseView;

    open spec fn view(&self) -> ConfigResponseView {
        ConfigResponseView { owner: self.owner@, fee_address: self.fee_address@, tx_fee: self.tx_fee as nat }
    }
}

/// The terms and the native pool of a collection, with the time of the
/// query.
#[derive(Debug, Clone, PartialEq, Eq)]
pub struct CollectionResponse {
    pub address: String,
    pub owner: String,
    pub total_airdrop: u128,
    pub airdropable: u128,
    pub duration: u64,
    pub started_at: u64,
    pub fee_address: String,
    pub cw20_address: String,
    pub is_started: bool,
    pub is_show: bool,
    pub is_enabled: bool,
    pub unstaking_fee: u128,
    pub unstaking_fee_percent: u64,
    pub server_time: u64,
}

#[verifier::ext_equal]
pub struct CollectionResponseView {
    pub address: Seq<char>,
    pub owner: Seq<char>,
    pub total_airdrop: nat,
    pub airdropable: nat,
    pub duration: nat,
    pub started_at: nat,
    pub fee_address: Seq<char>,
    pub cw20_address: Seq<char>,
    pub is_started: bool,
    pub is_show: bool,
    pub is_enabled: bool,
    pub unstaking_fee: nat,
    pub unstaking_fee_percent: nat,
    pub server_time: nat,
}

impl View for CollectionResponse {
    type V = CollectionResponseView;

    open spec fn view(&self) -> CollectionResponseView {
        CollectionResponseView {
            address: self.address@,
            owner: self.owner@,
            total_airdrop: self.total_airdrop as nat,
            airdropable: self.airdropable as nat,
            duration: self.duration as nat,
            started_at: self.started_at as nat,
            fee_address: self.fee_address@,
            cw20_address: self.cw20_address@,
            is_started: self.is_started,
            is_show: self.is_show,
            is_enabled: self.is_enabled,
            unstaking_fee: self.unstaking_fee as nat,
            unstaking_fee_percent: self.unstaking_fee_percent as nat,
            server_time: self.server_time as nat,
        }
    }
}

/// Addresses of collections.
#[derive(Debug, Clone, PartialEq, Eq)]
pub struct CollectionListResponse {
    pub collections: Vec<String>,
}

impl View for CollectionListResponse {
    type V = Seq<Seq<char>>;

    open spec fn view(&self) -> Seq<Seq<char>> {
        views(self.collections@)
    }
}

/// Addresses of participants.
#[derive(Debug, Clone, PartialEq, Eq)]
pub struct UserListResponse {
    pub addresses: Vec<String>,
}

impl View for UserListResponse {
    type V = Seq<Seq<char>>;

    open spec fn view(&self) -> Seq<Seq<char>> {
        views(self.addresses@)
    }
}

/// A number of locked NFTs.
#[derive(Debug, Clone, PartialEq, Eq)]
pub struct TotalLockedResponse {
    pub count: u128,
}

impl View for TotalLockedResponse {
    type V = nat;

    open spec fn view(&self) -> nat {
        self.count as nat
    }
}

/// One staked NFT as a query shows it.
#[derive(Debug, Clone, PartialEq, Eq)]
pub struct StakedNftResponse {
    pub nft_id: String,
    pub airdrop: bool,
    pub lock_time: u64,
}

#[verifier::ext_equal]
pub struct StakedNftView {
    pub nft_id: Seq<char>,
    pub airdrop: bool,
    pub lock_time: nat,
}

impl View for StakedNftResponse {
    type V = StakedNftView;

    open spec fn view(&self) -> StakedNftView {
        StakedNftView { nft_id: self.nft_id@, airdrop: self.airdrop, lock_time: self.lock_time as nat }
    }
}

/// The NFTs that a participant has staked in a collection.
#[derive(Debug, Clone, PartialEq, Eq)]
pub struct StakedNftsResponse {
    pub nft_maps: Vec<StakedNftResponse>,
}

impl View for StakedNftsResponse {
    type V = Seq<StakedNftView>;

    open spec fn view(&self) -> Seq<StakedNftView> {
        views(self.nft_maps@)
    }
}

/// What a participant has earned and can claim in a collection.
#[derive(Debug, Clone, PartialEq, Eq)]
pub struct EarnInfosResponse {
    pub total_earned: u128,
    pub claimable: u128,
    pub earn_infos: Vec<EarnInfo>,
}

#[verifier::ext_equal]
pub struct EarnInfosView {
    pub total_earned: nat,
    pub claimable: nat,
    pub earn_infos: Seq<EarnInfoView>,
}

impl View for EarnInfosResponse {
    type V = EarnInfosView;

    open spec fn view(&self) -> EarnInfosView {
        EarnInfosView {
            total_earned: self.total_earned as nat,
            claimable: self.claimable as nat,
            earn_infos: views(self.earn_infos@),
        }
    }
}

/// The pools of a collection.
#[derive(Debug, Clone, PartialEq, Eq)]
pub struct AirdropInfosResponse {
    pub total_airdrop: u128,
    pub airdropable: u128,
    pub airdrop_infos: Vec<AirdropInfo>,
}

#[verifier::ext_equal]
pub struct AirdropInfosView {
    pub total_airdrop: nat,
    pub airdropable: nat,
    pub airdrop_infos: Seq<AirdropInfoView>,
}

impl View for AirdropInfosResponse {
    type V = AirdropInfosView;

    open spec fn view(&self) -> AirdropInfosView {
        AirdropInfosView {
            total_airdrop: self.total_airdrop as nat,
            airdropable: self.airdropable as nat,
            airdrop_infos: views(self.airdrop_infos@),
        }
    }
}

/// The answer to a query, by the kind of the query.
#[derive(Debug, Clone, PartialEq, Eq)]
pub enum QueryResponse {
    Config(ConfigResponse),
    Collection(CollectionResponse),
    UserList(UserListResponse),
    CollectionList(CollectionListResponse),
    TotalLocked(TotalLockedResponse),
    StakedNfts(StakedNftsResponse),
    EarnInfos(EarnInfosResponse),
    AirdropInfos(AirdropInfosResponse),
}

/// What the sender of an NFT says it is sent for.
#[derive(Debug, Clone, PartialEq, Eq)]
pub enum NftReceiveMsg {
    Stake { sender: String, token_id: String, collection_address: String },
}

/// The notice that an NFT contract gives of an NFT it has sent to the
/// ledger: who sent it, which one, and what for.
#[derive(Debug, Clone, PartialEq, Eq)]
pub struct Cw721ReceiveMsg {
    pub sender: String,
    pub token_id: String,
    pub msg: NftReceiveMsg,
}

#[verifier::ext_equal]
pub struct Cw721ReceiveView {
    pub sender: Seq<char>,
    pub token_id: Seq<char>,
    pub stake_sender: Seq<char>,
    pub stake_token_id: Seq<char>,
    pub stake_collection: Seq<char>,
}

impl View for Cw721ReceiveMsg {
    type V = Cw721ReceiveView;

    open spec fn view(&self) -> Cw721ReceiveView {
        match self.msg {
            NftReceiveMsg::Stake { sender, token_id, collection_address } => Cw721ReceiveView {
                sender: self.sender@,
                token_id: self.token_id@,
                stake_sender: sender@,
                stake_token_id: token_id@,
                stake_collection: collection_address@,
            },
        }
    }
}

} // verus!
