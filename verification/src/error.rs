//! Why a call on the ledger is refused.
use vstd::prelude::*;

verus! {

/// The host's own error type. The ledger carries it through unread.
#[verifier::external_type_specification]
#[verifier::external_body]
pub struct ExStdError(cosmwasm_std::StdError);

/// The reasons for which the ledger refuses a call.
#[derive(Debug, PartialEq)]
pub enum ContractError {
    /// A message for a token contract could not be encoded.
    Std(cosmwasm_std::StdError),
    /// The caller lacks the role that the call asks for.
    Unauthorized,
    /// The collection is not enabled.
    Disabled,
    /// No airdrop round is open, so nothing can be staked or restaked.
    NotStarted,
    /// A payment, a balance or a pool is too low for what was asked.
    InsufficientCw20,
    /// The collection has no reward token where one is needed.
    InvalidCw20Token,
    /// The named NFT is staked under another collection.
    InvalidCw721Token,
    /// The notice of a received NFT does not match its envelope, or a
    /// restaked NFT is staked under another collection.
    InvalidCw721Msg,
    /// An airdrop of nothing was asked for.
    InvalidAirdrop,
    /// The collection holds no NFT whose lock has yet to run out.
    NoUnexpiredNft,
    /// The airdrop is smaller than the number of locked NFTs, so each
    /// would receive nothing.
    OverNftCount { nft_count: u128 },
    /// The caller never staked in the collection, has nothing staked there
    /// to unstake or restake, or has not staked the NFT that was named.
    NoStakedNft,
    /// The fee for unstaking before the lock ran out was not paid in full.
    Locktime,
    /// Nothing can be claimed.
    NoReward,
    /// No collection is registered under the address.
    InvalidCollection,
}

} // verus!
