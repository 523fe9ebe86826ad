//! What the host hands to a call, and what a call hands back.
use vstd::prelude::*;
use crate::state::views;

verus! {

/// An amount of a native currency.
#[derive(Debug, Clone, PartialEq, Eq)]
pub struct Coin {
    pub denom: String,
    pub amount: u128,
}

pub struct CoinView {
    pub denom: Seq<char>,
    pub amount: nat,
}

impl View for Coin {
    type V = CoinView;

    open spec fn view(&self) -> CoinView {
        CoinView { denom: self.denom@, amount: self.amount as nat }
    }
}

/// Who calls, and what they pay with the call.
#[derive(Debug, Clone, PartialEq, Eq)]
pub struct MessageInfo {
    pub sender: String,
    pub funds: Vec<Coin>,
}

#[verifier::ext_equal]
pub struct MessageInfoView {
    pub sender: Seq<char>,
    pub funds: Seq<CoinView>,
}

impl View for MessageInfo {
    type V = MessageInfoView;

    open spec fn view(&self) -> MessageInfoView {
        MessageInfoView { sender: self.sender@, funds: views(self.funds@) }
    }
}

/// When the call runs, in seconds, and the address that holds the ledger.
#[derive(Debug, Clone, PartialEq, Eq)]
pub struct Env {
    pub time: u64,
    pub contract_address: String,
}

pub struct EnvView {
    pub time: nat,
    pub contract_address: Seq<char>,
}

impl View for Env {
    type V = EnvView;

    open spec fn view(&self) -> EnvView {
        EnvView { time: self.time as nat, contract_address: self.contract_address@ }
    }
}

/// A currency: the chain's own, by its name, or a token, by its contract.
#[derive(Debug, Clone, PartialEq, Eq)]
pub enum Denom {
    Native(String),
    Cw20(String),
}

pub enum DenomView {
    Native(Seq<char>),
    Cw20(Seq<char>),
}

impl View for Denom {
    type V = DenomView;

    open spec fn view(&self) -> DenomView {
        match self {
            Denom::Native(name) => DenomView::Native(name@),
            Denom::Cw20(contract) => DenomView::Cw20(contract@),
        }
    }
}

/// An instruction that the ledger hands to the host.
#[derive(Debug, Clone, PartialEq, Eq)]
pub enum CosmosMsg {
    /// Pay `amount` of the native currency `denom` to `to_address`.
    Send { to_address: String, denom: String, amount: u128 },
    /// Call the contract at `contract_addr` with the encoded message `msg`.
    Execute { contract_addr: String, msg: Vec<u8> },
}

/// An instruction as the contracts speak of it. The message of a call is
/// missing where it cannot be encoded: such an instruction cannot be handed
/// to the host.
#[verifier::ext_equal]
pub enum CosmosMsgView {
    Send { to_address: Seq<char>, denom: Seq<char>, amount: int },
    Execute { contract_addr: Seq<char>, msg: Option<Seq<u8>> },
}

impl CosmosMsgView {
    /// The instruction can be handed to the host: it is a payment, or a
    /// call whose message was encoded.
    pub open spec fn encodes(self) -> bool {
        !(self matches CosmosMsgView::Execute { msg: None, .. })
    }

    /// The amount of a payment is one that the machine's numbers can hold.
    pub open spec fn fits(self) -> bool {
        self matches CosmosMsgView::Send { amount, .. } ==> 0 <= amount <= u128::MAX
    }
}

impl View for CosmosMsg {
    type V = CosmosMsgView;

    open spec fn view(&self) -> CosmosMsgView {
        match self {
            CosmosMsg::Send { to_address, denom, amount } => CosmosMsgView::Send {
                to_address: to_address@,
                denom: denom@,
                amount: *amount as int,
            },
            CosmosMsg::Execute { contract_addr, msg } => CosmosMsgView::Execute {
                contract_addr: contract_addr@,
                msg: Some(msg@),
            },
        }
    }
}

/// What a call that went through hands back: its instructions, in order.
#[derive(Debug, Clone, PartialEq, Eq)]
pub struct Response {
    pub messages: Vec<CosmosMsg>,
}

impl View for Response {
    type V = Seq<CosmosMsgView>;

    open spec fn view(&self) -> Seq<CosmosMsgView> {
        views(self.messages@)
    }
}

impl Response {
    /// A response without instructions.
    pub fn new() -> (r: Response)
        ensures
            r@ == Seq::<CosmosMsgView>::empty(),
    {
        let r = Response { messages: Vec::new() };
        assert(r@ =~= Seq::<CosmosMsgView>::empty());
        r
    }
}

} // verus!
