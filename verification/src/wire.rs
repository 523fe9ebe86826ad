//! The calls into the token and payment libraries.
//!
//! Nothing in this file is proved: each function makes one outside call, and
//! its contract records what that call is taken to return.
use vstd::prelude::*;
use crate::host::{Coin, MessageInfo};

verus! {

/// The payment library's own error type.
#[verifier::external_type_specification]
#[verifier::external_body]
pub struct ExPaymentError(cw_utils::PaymentError);

/// The bytes of the NFT contract's message that moves `token_id` to
/// `recipient`; nothing where the encoder refuses the message.
pub uninterp spec fn cw721_transfer_nft_binary(recipient: Seq<char>, token_id: Seq<char>) -> Option<Seq<u8>>;

/// The bytes of the token contract's message that moves `amount` from the
/// caller to `recipient`; nothing where the encoder refuses the message.
pub uninterp spec fn cw20_transfer_binary(recipient: Seq<char>, amount: u128) -> Option<Seq<u8>>;

/// The bytes of the token contract's message that moves `amount` from
/// `owner` to `recipient` out of an allowance; nothing where the encoder
/// refuses the message.
pub uninterp spec fn cw20_transfer_from_binary(
    owner: Seq<char>,
    recipient: Seq<char>,
    amount: u128,
) -> Option<Seq<u8>>;

/// `cw_utils::must_pay`: the amount paid with the call, when the call came
/// with exactly one coin, of the currency `denom` and not of amount zero;
/// an error in every other case.
#[verifier::external_body]
pub(crate) fn must_pay(info: &MessageInfo, denom: &String) -> (r: Result<u128, cw_utils::PaymentError>)
    ensures
        r is Ok <==> (info@.funds.len() == 1 && info@.funds[0].amount != 0 && info@.funds[0].denom
            == denom@),
        r matches Ok(amount) ==> amount == info@.funds[0].amount,
{
    let funds = info.funds.iter().map(|c: &Coin| cosmwasm_std::Coin::new(c.amount, c.denom.clone())).collect();
    let outside = cosmwasm_std::MessageInfo { sender: cosmwasm_std::Addr::unchecked(info.sender.clone()), funds };
    cw_utils::must_pay(&outside, denom.as_str()).map(|paid| paid.u128())
}

/// `cosmwasm_std::to_binary` on `Cw721ExecuteMsg::TransferNft`: whether
/// it succeeds, and with which bytes, is determined by the two texts alone.
#[verifier::external_body]
pub(crate) fn encode_cw721_transfer_nft(recipient: &String, token_id: &String) -> (r: Result<
    Vec<u8>,
    cosmwasm_std::StdError,
>)
    ensures
        r matches Ok(bytes) ==> cw721_transfer_nft_binary(recipient@, token_id@) == Some(bytes@),
        r is Err ==> cw721_transfer_nft_binary(recipient@, token_id@) is None,
{
    let msg = cw721::Cw721ExecuteMsg::TransferNft { recipient: recipient.clone(), token_id: token_id.clone() };
    cosmwasm_std::to_binary(&msg).map(|b| b.0)
}

/// `cosmwasm_std::to_binary` on `Cw20ExecuteMsg::Transfer`: whether it
/// succeeds, and with which bytes, is determined by the recipient and the
/// amount alone.
#[verifier::external_body]
pub(crate) fn encode_cw20_transfer(recipient: &String, amount: u128) -> (r: Result<
    Vec<u8>,
    cosmwasm_std::StdError,
>)
    ensures
        r matches Ok(bytes) ==> cw20_transfer_binary(recipient@, amount) == Some(bytes@),
        r is Err ==> cw20_transfer_binary(recipient@, amount) is None,
{
    let msg = cw20::Cw20ExecuteMsg::Transfer { recipient: recipient.clone(), amount: cosmwasm_std::Uint128::new(amount) };
    cosmwasm_std::to_binary(&msg).map(|b| b.0)
}

/// `cosmwasm_std::to_binary` on `Cw20ExecuteMsg::TransferFrom`: whether
/// it succeeds, and with which bytes, is determined by the two addresses and
/// the amount alone.
#[verifier::external_body]
pub(crate) fn encode_cw20_transfer_from(owner: &String, recipient: &String, amount: u128) -> (r: Result<
    Vec<u8>,
    cosmwasm_std::StdError,
>)
    ensures
        r matches Ok(bytes) ==> cw20_transfer_from_binary(owner@, recipient@, amount) == Some(bytes@),
        r is Err ==> cw20_transfer_from_binary(owner@, recipient@, amount) is None,
{
    let msg = cw20::Cw20ExecuteMsg::TransferFrom {
        owner: owner.clone(),
        recipient: recipient.clone(),
        amount: cosmwasm_std::Uint128::new(amount),
    };
    cosmwasm_std::to_binary(&msg).map(|b| b.0)
}

} // verus!
