//! Signet events emitted by host-chain contracts, and the filters that keep
//! those meant for a given rollup.
use vstd::prelude::*;
use crate::orders::Output;
use crate::primitives::{Address, B256, U256};

verus! {

/// A `Passage` `Enter` event: native tokens entering the rollup.
#[derive(Clone, Copy, Debug, PartialEq, Eq)]
pub struct Enter {
    /// The rollup chain the tokens enter.
    pub rollup_chain_id: U256,
    /// The recipient on the rollup.
    pub rollup_recipient: Address,
    /// The amount.
    pub amount: U256,
}

/// A `Passage` `EnterToken` event: host tokens entering the rollup.
#[derive(Clone, Copy, Debug, PartialEq, Eq)]
pub struct EnterToken {
    /// The rollup chain the tokens enter.
    pub rollup_chain_id: U256,
    /// The recipient on the rollup.
    pub rollup_recipient: Address,
    /// The host token.
    pub token: Address,
    /// The amount.
    pub amount: U256,
}

/// A `Zenith` `BlockSubmitted` event.
#[derive(Clone, Copy, Debug, PartialEq, Eq)]
pub struct BlockSubmitted {
    /// The sequencer that signed the block.
    pub sequencer: Address,
    /// The rollup chain of the block.
    pub rollup_chain_id: U256,
    /// The block's gas limit.
    pub gas_limit: U256,
    /// The address that receives the block reward.
    pub reward_address: Address,
    /// The hash of the block's data.
    pub block_data_hash: B256,
}

/// A `Transactor` `Transact` event: a host-chain request for a rollup
/// transaction.
#[derive(Clone, Debug, PartialEq, Eq)]
pub struct Transact {
    /// The rollup chain of the transaction.
    pub rollup_chain_id: U256,
    /// The host sender.
    pub sender: Address,
    /// The callee on the rollup.
    pub to: Address,
    /// The call data.
    pub data: Vec<u8>,
    /// The value sent.
    pub value: U256,
    /// The gas limit.
    pub gas: U256,
    /// The maximum fee per gas.
    pub max_fee_per_gas: U256,
}

/// A `RollupOrders` `Filled` event.
#[derive(Clone, Debug, PartialEq, Eq)]
pub struct Filled {
    /// The outputs filled.
    pub outputs: Vec<Output>,
}

/// The header of a submitted rollup block.
#[derive(Clone, Copy, Debug, PartialEq, Eq)]
pub struct BlockHeader {
    /// The rollup chain of the block.
    pub rollup_chain_id: U256,
    /// The host block in which the block was submitted.
    pub host_block_number: U256,
    /// The block's gas limit.
    pub gas_limit: U256,
    /// The address that receives the block reward.
    pub reward_address: Address,
    /// The hash of the block's data.
    pub block_data_hash: B256,
}

impl BlockHeader {
    /// The header of the block that `event` announces, submitted in host
    /// block `host_block_number`.
    pub fn from_block_submitted(event: BlockSubmitted, host_block_number: U256) -> (r: Self)
        ensures
            r == (BlockHeader {
                rollup_chain_id: event.rollup_chain_id,
                host_block_number,
                gas_limit: event.gas_limit,
                reward_address: event.reward_address,
                block_data_hash: event.block_data_hash,
            }),
    {
        BlockHeader {
            rollup_chain_id: event.rollup_chain_id,
            host_block_number,
            gas_limit: event.gas_limit,
            reward_address: event.reward_address,
            block_data_hash: event.block_data_hash,
        }
    }
}

/// A log decoded with the `Passage` contract's events.
#[derive(Clone, Copy, Debug, PartialEq, Eq)]
pub enum PassageEvent {
    /// An `Enter`.
    Enter(Enter),
    /// An `EnterToken`.
    EnterToken(EnterToken),
    /// Another `Passage` event.
    Other,
}

/// A log decoded with the `Zenith` contract's events.
#[derive(Clone, Copy, Debug, PartialEq, Eq)]
pub enum ZenithEvent {
    /// A `BlockSubmitted`.
    BlockSubmitted(BlockSubmitted),
    /// Another `Zenith` event.
    Other,
}

/// A log decoded with the `Transactor` contract's events.
#[derive(Clone, Debug, PartialEq, Eq)]
pub enum TransactorEvent {
    /// A `Transact`.
    Transact(Transact),
    /// Another `Transactor` event.
    Other,
}

/// A log decoded with the `RollupOrders` contract's events.
#[derive(Clone, Debug, PartialEq, Eq)]
pub enum OrdersEvent {
    /// A `Filled`.
    Filled(Filled),
    /// Another `RollupOrders` event.
    Other,
}

/// Events that we expect to find on the host chain. Each is emitted by a
/// different host-chain contract.
#[derive(Clone, Debug, PartialEq, Eq)]
pub enum Events {
    /// An `EnterToken` event.
    EnterToken(EnterToken),
    /// An `Enter` event.
    Enter(Enter),
    /// A `BlockSubmitted` event.
    BlockSubmitted(BlockSubmitted),
    /// A `Transact` event.
    Transact(Transact),
    /// A `Filled` event.
    Filled(Filled),
}

impl From<EnterToken> for Events {
    fn from(e: EnterToken) -> (r: Self) {
        Events::EnterToken(e)
    }
}

impl vstd::std_specs::convert::FromSpecImpl<EnterToken> for Events {
    open spec fn obeys_from_spec() -> bool {
        true
    }

    open spec fn from_spec(e: EnterToken) -> Self {
        Events::EnterToken(e)
    }
}

impl From<Enter> for Events {
    fn from(e: Enter) -> (r: Self) {
        Events::Enter(e)
    }
}

impl vstd::std_specs::convert::FromSpecImpl<Enter> for Events {
    open spec fn obeys_from_spec() -> bool {
        true
    }

    open spec fn from_spec(e: Enter) -> Self {
        Events::Enter(e)
    }
}

impl From<BlockSubmitted> for Events {
    fn from(e: BlockSubmitted) -> (r: Self) {
        Events::BlockSubmitted(e)
    }
}

impl vstd::std_specs::convert::FromSpecImpl<BlockSubmitted> for Events {
    open spec fn obeys_from_spec() -> bool {
        true
    }

    open spec fn from_spec(e: BlockSubmitted) -> Self {
        Events::BlockSubmitted(e)
    }
}

impl From<Filled> for Events {
    fn from(e: Filled) -> (r: Self) {
        Events::Filled(e)
    }
}

impl vstd::std_specs::convert::FromSpecImpl<Filled> for Events {
    open spec fn obeys_from_spec() -> bool {
        true
    }

    open spec fn from_spec(e: Filled) -> Self {
        Events::Filled(e)
    }
}

impl From<Transact> for Events {
    fn from(e: Transact) -> (r: Self) {
        Events::Transact(e)
    }
}

impl vstd::std_specs::convert::FromSpecImpl<Transact> for Events {
    open spec fn obeys_from_spec() -> bool {
        true
    }

    open spec fn from_spec(e: Transact) -> Self {
        Events::Transact(e)
    }
}

/// True if the rollup chain id `id` names the chain `chain_id`.
pub open spec fn names_chain(id: U256, chain_id: u64) -> bool {
    id.value() == chain_id
}

/// The passage events kept for rollup `filter_chain_id`.
pub open spec fn spec_decode_passage(event: Option<PassageEvent>, filter_chain_id: u64) -> Option<Events> {
    match event {
        Some(PassageEvent::Enter(e)) => if names_chain(e.rollup_chain_id, filter_chain_id) {
            Some(Events::Enter(e))
        } else {
            None
        },
        Some(PassageEvent::EnterToken(e)) => if names_chain(e.rollup_chain_id, filter_chain_id) {
            Some(Events::EnterToken(e))
        } else {
            None
        },
        _ => None,
    }
}

/// The zenith events kept for rollup `filter_chain_id`.
pub open spec fn spec_decode_zenith(event: Option<ZenithEvent>, filter_chain_id: u64) -> Option<Events> {
    match event {
        Some(ZenithEvent::BlockSubmitted(e)) => if names_chain(e.rollup_chain_id, filter_chain_id) {
            Some(Events::BlockSubmitted(e))
        } else {
            None
        },
        _ => None,
    }
}

/// The transactor events kept for rollup `filter_chain_id`.
pub open spec fn spec_decode_transactor(event: Option<TransactorEvent>, filter_chain_id: u64) -> Option<Events> {
    match event {
        Some(TransactorEvent::Transact(e)) => if names_chain(e.rollup_chain_id, filter_chain_id) {
            Some(Events::Transact(e))
        } else {
            None
        },
        _ => None,
    }
}

/// The outputs of `outputs` that target `chain_id`, in order.
pub open spec fn outputs_on_chain(outputs: Seq<Output>, chain_id: u64) -> Seq<Output> {
    outputs.filter(|o: Output| o.chain_id as u64 == chain_id)
}

/// Keeps the outputs of `outputs` that target `chain_id`, in order.
pub fn retain_outputs_on_chain(outputs: Vec<Output>, chain_id: u64) -> (r: Vec<Output>)
    ensures
        r@ == outputs_on_chain(outputs@, chain_id),
{
    let mut out: Vec<Output> = Vec::new();
    let mut i: usize = 0;
    while i < outputs.len()
        invariant
            0 <= i <= outputs@.len(),
            out@ == outputs_on_chain(outputs@.subrange(0, i as int), chain_id),
        decreases outputs@.len() - i,
    {
        let o = outputs[i];
        if o.chain_id as u64 == chain_id {
            out.push(o);
        }
        proof {
            reveal_with_fuel(Seq::<_>::filter, 1);
            assert(outputs@.subrange(0, i + 1).drop_last() =~= outputs@.subrange(0, i as int));
        }
        i = i + 1;
    }
    assert(outputs@.subrange(0, outputs@.len() as int) =~= outputs@);
    out
}

/// `r` is the order event kept for rollup `filter_chain_id` from `event`:
/// a fill, keeping only the outputs on that chain.
pub open spec fn decoded_orders(event: Option<OrdersEvent>, filter_chain_id: u64, r: Option<Events>) -> bool {
    match event {
        Some(OrdersEvent::Filled(e)) => r matches Some(Events::Filled(f)) && f.outputs@
            == outputs_on_chain(e.outputs@, filter_chain_id),
        _ => r is None,
    }
}

impl Events {
    /// Keeps a decoded `Passage` event if it is an `Enter` or `EnterToken`
    /// for rollup `filter_chain_id`. `None` stands for a log that does not
    /// decode as a `Passage` event.
    pub fn decode_passage(event: Option<PassageEvent>, filter_chain_id: u64) -> (r: Option<Self>)
        ensures
            r == spec_decode_passage(event, filter_chain_id),
    {
        match event {
            Some(PassageEvent::Enter(e)) => {
                if e.rollup_chain_id.eq(&U256::from_u64(filter_chain_id)) {
                    Some(Events::Enter(e))
                } else {
                    None
                }
            },
            Some(PassageEvent::EnterToken(e)) => {
                if e.rollup_chain_id.eq(&U256::from_u64(filter_chain_id)) {
                    Some(Events::EnterToken(e))
                } else {
                    None
                }
            },
            _ => None,
        }
    }

    /// Keeps a decoded `Zenith` event if it is a `BlockSubmitted` for
    /// rollup `filter_chain_id`.
    pub fn decode_zenith(event: Option<ZenithEvent>, filter_chain_id: u64) -> (r: Option<Self>)
        ensures
            r == spec_decode_zenith(event, filter_chain_id),
    {
        match event {
            Some(ZenithEvent::BlockSubmitted(e)) => {
                if e.rollup_chain_id.eq(&U256::from_u64(filter_chain_id)) {
                    Some(Events::BlockSubmitted(e))
                } else {
                    None
                }
            },
            _ => None,
        }
    }

    /// Keeps a decoded `Transactor` event if it is a `Transact` for rollup
    /// `filter_chain_id`.
    pub fn decode_transactor(event: Option<TransactorEvent>, filter_chain_id: u64) -> (r: Option<
        Self,
    >)
        ensures
            r == spec_decode_transactor(event, filter_chain_id),
    {
        match event {
            Some(TransactorEvent::Transact(e)) => {
                if e.rollup_chain_id.eq(&U256::from_u64(filter_chain_id)) {
                    Some(Events::Transact(e))
                } else {
                    None
                }
            },
            _ => None,
        }
    }

    /// Keeps a decoded `RollupOrders` event if it is a `Filled`, retaining
    /// only the outputs on chain `filter_chain_id`.
    pub fn decode_orders(event: Option<OrdersEvent>, filter_chain_id: u64) -> (r: Option<Self>)
        ensures
            decoded_orders(event, filter_chain_id, r),
    {
        match event {
            Some(OrdersEvent::Filled(e)) => {
                let outputs = retain_outputs_on_chain(e.outputs, filter_chain_id);
                Some(Events::Filled(Filled { outputs }))
            },
            _ => None,
        }
    }

    /// True if this event is an `EnterToken` event.
    pub fn is_enter_token(&self) -> (r: bool)
        ensures
            r == self is EnterToken,
    {
        matches!(self, Events::EnterToken(_))
    }

    /// Fallible cast to an `EnterToken` event.
    pub fn as_enter_token(&self) -> (r: Option<&EnterToken>)
        ensures
            match self {
                Events::EnterToken(e) => r == Some(e),
                _ => r is None,
            },
    {
        match self {
            Events::EnterToken(e) => Some(e),
            _ => None,
        }
    }

    /// True if this event is an `Enter` event.
    pub fn is_enter(&self) -> (r: bool)
        ensures
            r == self is Enter,
    {
        matches!(self, Events::Enter(_))
    }

    /// Fallible cast to an `Enter` event.
    pub fn as_enter(&self) -> (r: Option<&Enter>)
        ensures
            match self {
                Events::Enter(e) => r == Some(e),
                _ => r is None,
            },
    {
        match self {
            Events::Enter(e) => Some(e),
            _ => None,
        }
    }

    /// True if this event is a `BlockSubmitted` event.
    pub fn is_block_submitted(&self) -> (r: bool)
        ensures
            r == self is BlockSubmitted,
    {
        matches!(self, Events::BlockSubmitted(_))
    }

    /// Fallible cast to a `BlockSubmitted` event.
    pub fn as_block_submitted(&self) -> (r: Option<&BlockSubmitted>)
        ensures
            match self {
                Events::BlockSubmitted(e) => r == Some(e),
                _ => r is None,
            },
    {
        match self {
            Events::BlockSubmitted(e) => Some(e),
            _ => None,
        }
    }

    /// True if this event is a `Transact` event.
    pub fn is_transact(&self) -> (r: bool)
        ensures
            r == self is Transact,
    {
        matches!(self, Events::Transact(_))
    }

    /// Fallible cast to a `Transact` event.
    pub fn as_transact(&self) -> (r: Option<&Transact>)
        ensures
            match self {
                Events::Transact(e) => r == Some(e),
                _ => r is None,
            },
    {
        match self {
            Events::Transact(e) => Some(e),
            _ => None,
        }
    }

    /// True if this event is a `Filled` event.
    pub fn is_filled(&self) -> (r: bool)
        ensures
            r == self is Filled,
    {
        matches!(self, Events::Filled(_))
    }

    /// Fallible cast to a `Filled` event.
    pub fn as_filled(&self) -> (r: Option<&Filled>)
        ensures
            match self {
                Events::Filled(e) => r == Some(e),
                _ => r is None,
            },
    {
        match self {
            Events::Filled(e) => Some(e),
            _ => None,
        }
    }
}

} // verus!
