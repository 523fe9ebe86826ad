//! Accounting core of an NFT staking ledger.
//!
//! The ledger records which NFTs each participant has locked in which
//! collection, shares airdrops among the locked NFTs, and decides which
//! payments leave the ledger. It moves nothing itself: a call changes the
//! records and hands back the instructions for the host to carry out.
//!
//! - `state`, `msg`, `host`, `error`: the records, the messages, what the
//!   host hands over and takes back, and the reasons for a refusal, each
//!   with its mathematical view.
//! - `lookup`: finding a record by its key.
//! - `model`, `staking`, `rewards`, `answers`: what each call and each
//!   query does, as functions on the views.
//! - `util`, `contract`: the calls and queries themselves, each proved to
//!   do what its model says.
//! - `batch`: going through the NFT ids of a call one by one.
//! - `fit`: whether the outcome of a call fits the machine's numbers.
//! - `laws`: what holds of the ledger whatever is called.
//! - `wire`: the calls into the token and payment libraries, which are
//!   taken on trust.
pub mod answers;
pub mod batch;
pub mod contract;
pub mod error;
pub mod fit;
pub mod host;
pub mod laws;
pub mod lookup;
pub mod model;
pub mod msg;
pub mod rewards;
pub mod staking;
pub mod state;
pub mod util;
pub mod wire;
