//! Extraction of Signet events from host-chain blocks: which logs count,
//! how they are grouped per host block, and at which rollup height.
use vstd::prelude::*;
use crate::events::{
    decoded_orders, outputs_on_chain, spec_decode_passage, spec_decode_transactor,
    spec_decode_zenith, BlockHeader, BlockSubmitted, Enter, EnterToken, Events, Filled,
    OrdersEvent, PassageEvent, Transact, TransactorEvent, ZenithEvent,
};
use crate::orders::Output;
use crate::primitives::{address_eq, Address, B256, U256};

verus! {

/// A block with its associated receipts.
#[derive(Debug, Clone, Copy)]
pub struct BlockAndReceipts<'a, B, R> {
    /// The block.
    pub block: &'a B,
    /// The receipts for this block's transactions.
    pub receipts: &'a [R],
}

/// The system constants that extraction reads: chain ids, the host height
/// at which Signet was deployed, the host contracts' addresses and the host
/// tokens that may enter the rollup.
#[derive(Debug, Clone, PartialEq, Eq)]
pub struct SystemConstants {
    /// The host chain id.
    pub host_chain_id: u64,
    /// The rollup chain id.
    pub ru_chain_id: u64,
    /// The host block at which Signet was deployed.
    pub host_deploy_height: u64,
    /// The host `Zenith` contract.
    pub host_zenith: Address,
    /// The host `RollupOrders` contract.
    pub host_orders: Address,
    /// The host `Transactor` contract.
    pub host_transactor: Address,
    /// The host `Passage` contract.
    pub host_passage: Address,
    /// The host tokens that may enter the rollup.
    pub host_tokens: Vec<Address>,
}

impl SystemConstants {
    /// True if `token` is one of the host tokens.
    pub open spec fn spec_is_host_token(self, token: Address) -> bool {
        self.host_tokens@.contains(token)
    }

    /// True if `token` is one of the host tokens.
    pub fn is_host_token(&self, token: Address) -> (r: bool)
        ensures
            r == self.spec_is_host_token(token),
    {
        let mut i: usize = 0;
        while i < self.host_tokens.len()
            invariant
                0 <= i <= self.host_tokens@.len(),
                forall|j: int| 0 <= j < i ==> self.host_tokens@[j] != token,
            decreases self.host_tokens@.len() - i,
        {
            if address_eq(&self.host_tokens[i], &token) {
                return true;
            }
            i = i + 1;
        }
        false
    }

    /// The rollup block that corresponds to a host block: the host height
    /// less the deploy height, or `None` below the deploy height.
    pub fn host_block_to_rollup_block_num(&self, host_block_num: u64) -> (r: Option<u64>)
        ensures
            host_block_num >= self.host_deploy_height ==> r == Some(
                (host_block_num - self.host_deploy_height) as u64,
            ),
            host_block_num < self.host_deploy_height ==> r is None,
    {
        host_block_num.checked_sub(self.host_deploy_height)
    }
}

/// A log of a host receipt: the emitting contract, and the log as each
/// contract's events decode it (`None` where it does not decode).
#[derive(Debug, Clone, PartialEq, Eq)]
pub struct HostLog {
    /// The contract that emitted the log.
    pub address: Address,
    /// The log decoded as a `Passage` event.
    pub passage: Option<PassageEvent>,
    /// The log decoded as a `Zenith` event.
    pub zenith: Option<ZenithEvent>,
    /// The log decoded as a `Transactor` event.
    pub transactor: Option<TransactorEvent>,
    /// The log decoded as a `RollupOrders` event.
    pub orders: Option<OrdersEvent>,
}

/// A host transaction with the logs of its receipt.
#[derive(Debug, Clone, PartialEq, Eq)]
pub struct HostTx {
    /// The transaction hash.
    pub hash: B256,
    /// True if the transaction is an EIP-4844 transaction.
    pub is_eip4844: bool,
    /// The logs of its receipt, in order.
    pub logs: Vec<HostLog>,
}

/// A host block: its number, its timestamp, and its transactions with
/// their receipts.
#[derive(Debug, Clone, PartialEq, Eq)]
pub struct HostBlock {
    /// The block number.
    pub number: u64,
    /// The block timestamp.
    pub timestamp: u64,
    /// The transactions, in order.
    pub txs: Vec<HostTx>,
}

/// An event as the contracts describe it, with fill outputs as a sequence.
pub enum EventsView {
    /// An `EnterToken`.
    EnterToken(EnterToken),
    /// An `Enter`.
    Enter(Enter),
    /// A `BlockSubmitted`.
    BlockSubmitted(BlockSubmitted),
    /// A `Transact`.
    Transact(Transact),
    /// A `Filled`, by its outputs.
    Filled(Seq<Output>),
}

impl View for Events {
    type V = EventsView;

    open spec fn view(&self) -> EventsView {
        match self {
            Events::EnterToken(e) => EventsView::EnterToken(*e),
            Events::Enter(e) => EventsView::Enter(*e),
            Events::BlockSubmitted(e) => EventsView::BlockSubmitted(*e),
            Events::Transact(e) => EventsView::Transact(*e),
            Events::Filled(f) => EventsView::Filled(f.outputs@),
        }
    }
}

/// The view of an optional event.
pub open spec fn opt_view(e: Option<Events>) -> Option<EventsView> {
    match e {
        Some(e) => Some(e@),
        None => None,
    }
}

/// The event that `log` yields for Signet, if any: dispatched on the
/// emitting contract, kept only for the rollup chain, and, for token
/// entries, only for host tokens.
pub open spec fn spec_extract_log(c: SystemConstants, log: HostLog) -> Option<EventsView> {
    if log.address == c.host_zenith {
        opt_view(spec_decode_zenith(log.zenith, c.ru_chain_id))
    } else if log.address == c.host_orders {
        match log.orders {
            Some(OrdersEvent::Filled(e)) => Some(
                EventsView::Filled(outputs_on_chain(e.outputs@, c.ru_chain_id)),
            ),
            _ => None,
        }
    } else if log.address == c.host_transactor {
        opt_view(spec_decode_transactor(log.transactor, c.ru_chain_id))
    } else if log.address == c.host_passage {
        match spec_decode_passage(log.passage, c.ru_chain_id) {
            Some(Events::Enter(e)) => Some(EventsView::Enter(e)),
            Some(Events::EnterToken(e)) => if c.spec_is_host_token(e.token) {
                Some(EventsView::EnterToken(e))
            } else {
                None
            },
            _ => None,
        }
    } else {
        None
    }
}

/// The Signet event of a host log, if it has one.
pub fn extract_log(c: &SystemConstants, log: HostLog) -> (r: Option<Events>)
    ensures
        opt_view(r) == spec_extract_log(*c, log),
{
    if address_eq(&log.address, &c.host_zenith) {
        return Events::decode_zenith(log.zenith, c.ru_chain_id);
    }
    if address_eq(&log.address, &c.host_orders) {
        let ghost orders = log.orders;
        let r = Events::decode_orders(log.orders, c.ru_chain_id);
        proof {
            assert(decoded_orders(orders, c.ru_chain_id, r));
        }
        return r;
    }
    if address_eq(&log.address, &c.host_transactor) {
        return Events::decode_transactor(log.transactor, c.ru_chain_id);
    }
    if address_eq(&log.address, &c.host_passage) {
        let event = Events::decode_passage(log.passage, c.ru_chain_id);
        match event {
            Some(Events::Enter(e)) => {
                return Some(Events::Enter(e));
            },
            Some(Events::EnterToken(e)) => {
                if c.is_host_token(e.token) {
                    return Some(Events::EnterToken(e));
                }
                return None;
            },
            _ => {
                return None;
            },
        }
    }
    None
}

/// Extraction keeps every Signet event meant for the rollup: a log from the
/// `Zenith` contract that is a `BlockSubmitted` for the rollup chain, a log
/// from the `RollupOrders` contract that is a `Filled` (with exactly its
/// outputs on the rollup chain), a log from the `Transactor` contract that
/// is a `Transact` for the rollup chain, and a log from the `Passage`
/// contract that is an `Enter` for the rollup chain or an `EnterToken` of a
/// host token for it, each yield that event. Contracts are tried in that
/// order, so each case assumes the log is from none of the ones before.
pub proof fn law_extract_log_complete(c: SystemConstants, log: HostLog)
    ensures
        log.address == c.host_zenith ==> match log.zenith {
            Some(ZenithEvent::BlockSubmitted(e)) => e.rollup_chain_id.value() == c.ru_chain_id
                ==> spec_extract_log(c, log) == Some(EventsView::BlockSubmitted(e)),
            _ => true,
        },
        log.address != c.host_zenith && log.address == c.host_orders ==> match log.orders {
            Some(OrdersEvent::Filled(e)) => spec_extract_log(c, log) == Some(
                EventsView::Filled(e.outputs@.filter(|o: Output| o.chain_id as u64 == c.ru_chain_id)),
            ),
            _ => true,
        },
        log.address != c.host_zenith && log.address != c.host_orders && log.address
            == c.host_transactor ==> match log.transactor {
            Some(TransactorEvent::Transact(e)) => e.rollup_chain_id.value() == c.ru_chain_id
                ==> spec_extract_log(c, log) == Some(EventsView::Transact(e)),
            _ => true,
        },
        log.address != c.host_zenith && log.address != c.host_orders && log.address
            != c.host_transactor && log.address == c.host_passage ==> match log.passage {
            Some(PassageEvent::Enter(e)) => e.rollup_chain_id.value() == c.ru_chain_id
                ==> spec_extract_log(c, log) == Some(EventsView::Enter(e)),
            Some(PassageEvent::EnterToken(e)) => e.rollup_chain_id.value() == c.ru_chain_id
                && c.host_tokens@.contains(e.token) ==> spec_extract_log(c, log) == Some(
                EventsView::EnterToken(e),
            ),
            _ => true,
        },
{
}

/// A single event extracted from the host chain: the hash of the
/// transaction that caused it, whether that transaction is an EIP-4844
/// transaction, the index of the log in the receipt's logs, and the event.
#[derive(Debug, Clone, PartialEq, Eq)]
pub struct ExtractedEvent<E> {
    /// The hash of the transaction that caused the event.
    pub tx_hash: B256,
    /// True if that transaction is an EIP-4844 transaction.
    pub is_eip4844: bool,
    /// The index of the log in the receipt's logs.
    pub log_index: usize,
    /// The extracted event.
    pub event: E,
}

/// An extracted event, with the event by its view.
pub struct ExtractedEventView {
    /// The transaction hash.
    pub tx_hash: B256,
    /// True for an EIP-4844 transaction.
    pub is_eip4844: bool,
    /// The log index.
    pub log_index: usize,
    /// The event.
    pub event: EventsView,
}

/// The view of an extracted event.
pub open spec fn ev_view(e: ExtractedEvent<Events>) -> ExtractedEventView {
    ExtractedEventView {
        tx_hash: e.tx_hash,
        is_eip4844: e.is_eip4844,
        log_index: e.log_index,
        event: e.event@,
    }
}

/// What a magic signature says about the event it stands for.
#[derive(Debug, Clone, Copy, PartialEq, Eq)]
pub enum MagicSigInfo {
    /// An `Enter`.
    Enter,
    /// An `EnterToken`.
    EnterToken,
    /// A `Transact` from `sender`.
    Transact {
        /// The host sender.
        sender: Address,
    },
}

/// The signature that marks a rollup transaction made from a host event:
/// what the event was, the host transaction and the log index.
#[derive(Debug, Clone, Copy, PartialEq, Eq)]
pub struct MagicSig {
    /// What the event was.
    pub ty: MagicSigInfo,
    /// The host transaction.
    pub txid: B256,
    /// The index of the event's log.
    pub event_idx: usize,
}

/// The fields of an EIP-1559 rollup transaction made for a `Transact`
/// event; the access list is empty.
#[derive(Debug, Clone, PartialEq, Eq)]
pub struct TransactTx {
    /// The rollup chain id.
    pub chain_id: u64,
    /// The nonce.
    pub nonce: u64,
    /// The gas limit.
    pub gas_limit: u64,
    /// The maximum fee per gas.
    pub max_fee_per_gas: u128,
    /// The maximum priority fee per gas.
    pub max_priority_fee_per_gas: u128,
    /// The callee.
    pub to: Address,
    /// The value sent.
    pub value: U256,
    /// The call data.
    pub input: Vec<u8>,
}

impl<E> ExtractedEvent<E> {
    /// The transaction hash of the extracted event.
    pub fn tx_hash(&self) -> (r: B256)
        ensures
            r == self.tx_hash,
    {
        self.tx_hash
    }
}

impl ExtractedEvent<Events> {
    /// True if the event is an `EnterToken`.
    pub fn is_enter_token(&self) -> (r: bool)
        ensures
            r == self.event is EnterToken,
    {
        self.event.is_enter_token()
    }

    /// The inner `EnterToken`, if the event is one.
    pub fn as_enter_token(&self) -> (r: Option<&EnterToken>)
        ensures
            match self.event {
                Events::EnterToken(e) => r == Some(&e),
                _ => r is None,
            },
    {
        self.event.as_enter_token()
    }

    /// Converts into an `EnterToken` event, or hands the event back.
    pub fn try_into_enter_token(self) -> (r: Result<ExtractedEvent<EnterToken>, Self>)
        ensures
            match self.event {
                Events::EnterToken(e) => r == Ok::<ExtractedEvent<EnterToken>, Self>(
                    ExtractedEvent {
                        tx_hash: self.tx_hash,
                        is_eip4844: self.is_eip4844,
                        log_index: self.log_index,
                        event: e,
                    },
                ),
                _ => r == Err::<ExtractedEvent<EnterToken>, Self>(self),
            },
    {
        match self.event {
            Events::EnterToken(event) => Ok(
                ExtractedEvent {
                    tx_hash: self.tx_hash,
                    is_eip4844: self.is_eip4844,
                    log_index: self.log_index,
                    event,
                },
            ),
            _ => Err(self),
        }
    }

    /// True if the event is an `Enter`.
    pub fn is_enter(&self) -> (r: bool)
        ensures
            r == self.event is Enter,
    {
        self.event.is_enter()
    }

    /// The inner `Enter`, if the event is one.
    pub fn as_enter(&self) -> (r: Option<&Enter>)
        ensures
            match self.event {
                Events::Enter(e) => r == Some(&e),
                _ => r is None,
            },
    {
        self.event.as_enter()
    }

    /// Converts into an `Enter` event, or hands the event back.
    pub fn try_into_enter(self) -> (r: Result<ExtractedEvent<Enter>, Self>)
        ensures
            match self.event {
                Events::Enter(e) => r == Ok::<ExtractedEvent<Enter>, Self>(
                    ExtractedEvent {
                        tx_hash: self.tx_hash,
                        is_eip4844: self.is_eip4844,
                        log_index: self.log_index,
                        event: e,
                    },
                ),
                _ => r == Err::<ExtractedEvent<Enter>, Self>(self),
            },
    {
        match self.event {
            Events::Enter(event) => Ok(
                ExtractedEvent {
                    tx_hash: self.tx_hash,
                    is_eip4844: self.is_eip4844,
                    log_index: self.log_index,
                    event,
                },
            ),
            _ => Err(self),
        }
    }

    /// True if the event is a `BlockSubmitted`.
    pub fn is_block_submitted(&self) -> (r: bool)
        ensures
            r == self.event is BlockSubmitted,
    {
        self.event.is_block_submitted()
    }

    /// The inner `BlockSubmitted`, if the event is one.
    pub fn as_block_submitted(&self) -> (r: Option<&BlockSubmitted>)
        ensures
            match self.event {
                Events::BlockSubmitted(e) => r == Some(&e),
                _ => r is None,
            },
    {
        self.event.as_block_submitted()
    }

    /// Converts into a `BlockSubmitted` event, or hands the event back.
    pub fn try_into_block_submitted(self) -> (r: Result<ExtractedEvent<BlockSubmitted>, Self>)
        ensures
            match self.event {
                Events::BlockSubmitted(e) => r == Ok::<ExtractedEvent<BlockSubmitted>, Self>(
                    ExtractedEvent {
                        tx_hash: self.tx_hash,
                        is_eip4844: self.is_eip4844,
                        log_index: self.log_index,
                        event: e,
                    },
                ),
                _ => r == Err::<ExtractedEvent<BlockSubmitted>, Self>(self),
            },
    {
        match self.event {
            Events::BlockSubmitted(event) => Ok(
                ExtractedEvent {
                    tx_hash: self.tx_hash,
                    is_eip4844: self.is_eip4844,
                    log_index: self.log_index,
                    event,
                },
            ),
            _ => Err(self),
        }
    }

    /// True if the event is a `Transact`.
    pub fn is_transact(&self) -> (r: bool)
        ensures
            r == self.event is Transact,
    {
        self.event.is_transact()
    }

    /// The inner `Transact`, if the event is one.
    pub fn as_transact(&self) -> (r: Option<&Transact>)
        ensures
            match self.event {
                Events::Transact(e) => r == Some(&e),
                _ => r is None,
            },
    {
        self.event.as_transact()
    }

    /// Converts into a `Transact` event, or hands the event back.
    pub fn try_into_transact(self) -> (r: Result<ExtractedEvent<Transact>, Self>)
        ensures
            match self.event {
                Events::Transact(e) => r == Ok::<ExtractedEvent<Transact>, Self>(
                    ExtractedEvent {
                        tx_hash: self.tx_hash,
                        is_eip4844: self.is_eip4844,
                        log_index: self.log_index,
                        event: e,
                    },
                ),
                _ => r == Err::<ExtractedEvent<Transact>, Self>(self),
            },
    {
        match self.event {
            Events::Transact(event) => Ok(
                ExtractedEvent {
                    tx_hash: self.tx_hash,
                    is_eip4844: self.is_eip4844,
                    log_index: self.log_index,
                    event,
                },
            ),
            _ => Err(self),
        }
    }

    /// True if the event is a `Filled`.
    pub fn is_filled(&self) -> (r: bool)
        ensures
            r == self.event is Filled,
    {
        self.event.is_filled()
    }

    /// The inner `Filled`, if the event is one.
    pub fn as_filled(&self) -> (r: Option<&Filled>)
        ensures
            match self.event {
                Events::Filled(e) => r == Some(&e),
                _ => r is None,
            },
    {
        self.event.as_filled()
    }

    /// Converts into a `Filled` event, or hands the event back.
    pub fn try_into_filled(self) -> (r: Result<ExtractedEvent<Filled>, Self>)
        ensures
            match self.event {
                Events::Filled(e) => r == Ok::<ExtractedEvent<Filled>, Self>(
                    ExtractedEvent {
                        tx_hash: self.tx_hash,
                        is_eip4844: self.is_eip4844,
                        log_index: self.log_index,
                        event: e,
                    },
                ),
                _ => r == Err::<ExtractedEvent<Filled>, Self>(self),
            },
    {
        match self.event {
            Events::Filled(event) => Ok(
                ExtractedEvent {
                    tx_hash: self.tx_hash,
                    is_eip4844: self.is_eip4844,
                    log_index: self.log_index,
                    event,
                },
            ),
            _ => Err(self),
        }
    }
}

impl ExtractedEvent<Transact> {
    /// The magic signature of the transact event: its host sender, the host
    /// transaction and the log index.
    pub fn magic_sig(&self) -> (r: MagicSig)
        ensures
            r == (MagicSig {
                ty: MagicSigInfo::Transact { sender: self.event.sender },
                txid: self.tx_hash,
                event_idx: self.log_index,
            }),
    {
        MagicSig {
            ty: MagicSigInfo::Transact { sender: self.event.sender },
            txid: self.tx_hash,
            event_idx: self.log_index,
        }
    }

    /// The rollup transaction that corresponds to this transact event, with
    /// the given nonce, and the magic signature it is signed with. The
    /// priority fee is zero.
    pub fn make_transaction(&self, nonce: u64) -> (r: (TransactTx, MagicSig))
        requires
            self.event.rollup_chain_id.value() <= u64::MAX,
            self.event.gas.value() <= u64::MAX,
            self.event.max_fee_per_gas.value() <= u128::MAX,
        ensures
            r.0.chain_id == self.event.rollup_chain_id.value(),
            r.0.nonce == nonce,
            r.0.gas_limit == self.event.gas.value(),
            r.0.max_fee_per_gas == self.event.max_fee_per_gas.value(),
            r.0.max_priority_fee_per_gas == 0,
            r.0.to == self.event.to,
            r.0.value == self.event.value,
            r.0.input@ == self.event.data@,
            r.1 == (MagicSig {
                ty: MagicSigInfo::Transact { sender: self.event.sender },
                txid: self.tx_hash,
                event_idx: self.log_index,
            }),
    {
        proof {
            crate::primitives::lemma_two_128();
        }
        let tx = TransactTx {
            chain_id: self.event.rollup_chain_id.lo as u64,
            nonce,
            gas_limit: self.event.gas.lo as u64,
            max_fee_per_gas: self.event.max_fee_per_gas.lo,
            max_priority_fee_per_gas: 0,
            to: self.event.to,
            value: self.event.value,
            input: self.event.data.clone(),
        };
        (tx, self.magic_sig())
    }
}

impl ExtractedEvent<Enter> {
    /// The magic signature of the enter event.
    pub fn magic_sig(&self) -> (r: MagicSig)
        ensures
            r == (MagicSig { ty: MagicSigInfo::Enter, txid: self.tx_hash, event_idx: self.log_index }),
    {
        MagicSig { ty: MagicSigInfo::Enter, txid: self.tx_hash, event_idx: self.log_index }
    }
}

impl ExtractedEvent<EnterToken> {
    /// The magic signature of the enter-token event.
    pub fn magic_sig(&self) -> (r: MagicSig)
        ensures
            r == (MagicSig {
                ty: MagicSigInfo::EnterToken,
                txid: self.tx_hash,
                event_idx: self.log_index,
            }),
    {
        MagicSig { ty: MagicSigInfo::EnterToken, txid: self.tx_hash, event_idx: self.log_index }
    }
}

impl ExtractedEvent<BlockSubmitted> {
    /// The header of the block that was submitted.
    pub fn ru_header(&self, host_block_number: u64) -> (r: BlockHeader)
        ensures
            r.rollup_chain_id == self.event.rollup_chain_id,
            r.host_block_number.value() == host_block_number,
            r.gas_limit == self.event.gas_limit,
            r.reward_address == self.event.reward_address,
            r.block_data_hash == self.event.block_data_hash,
    {
        BlockHeader::from_block_submitted(self.event, U256::from_u64(host_block_number))
    }

    /// True if the transaction is an EIP-4844 transaction.
    pub fn is_eip4844(&self) -> (r: bool)
        ensures
            r == self.is_eip4844,
    {
        self.is_eip4844
    }
}

} // verus!
