//! Interests of RPC clients (log filters and new-block subscriptions) and
//! the buffers that hold what they are owed.
use vstd::prelude::*;
use std::collections::VecDeque;
use crate::primitives::B256;
use crate::receipts::RpcLog;

verus! {

/// The kinds of interest a client can register: logs matching a filter, or
/// new blocks. Pending-transaction interests are not supported.
#[derive(Debug, Clone, PartialEq, Eq)]
pub enum InterestKind<F> {
    /// Logs matching the filter.
    Log(Box<F>),
    /// New blocks.
    Block,
}

impl<F> InterestKind<F> {
    /// True if this is a log filter.
    pub fn is_filter(&self) -> (r: bool)
        ensures
            r == self is Log,
    {
        matches!(self, InterestKind::Log(_))
    }

    /// True if this is a block filter.
    pub fn is_block(&self) -> (r: bool)
        ensures
            r == self is Block,
    {
        matches!(self, InterestKind::Block)
    }

    /// Fallible cast to a filter.
    pub fn as_filter(&self) -> (r: Option<&F>)
        ensures
            match self {
                InterestKind::Log(f) => r == Some(&**f),
                InterestKind::Block => r is None,
            },
    {
        match self {
            InterestKind::Log(f) => Some(&**f),
            InterestKind::Block => None,
        }
    }

    /// An empty output of the same kind as this interest.
    pub fn empty_output<L>(&self) -> (r: FilterOutput<L>)
        ensures
            self is Log ==> (r matches FilterOutput::Log(v) && v@.len() == 0),
            self is Block ==> (r matches FilterOutput::Block(v) && v@.len() == 0),
    {
        match self {
            InterestKind::Log(_) => FilterOutput::Log(VecDeque::new()),
            InterestKind::Block => FilterOutput::Block(VecDeque::new()),
        }
    }

    /// An empty subscription buffer of the same kind as this interest.
    pub fn empty_sub_buffer<L, H>(&self) -> (r: SubscriptionBuffer<L, H>)
        ensures
            self is Log ==> (r matches SubscriptionBuffer::Log(v) && v@.len() == 0),
            self is Block ==> (r matches SubscriptionBuffer::Block(v) && v@.len() == 0),
    {
        match self {
            InterestKind::Log(_) => SubscriptionBuffer::Log(VecDeque::new()),
            InterestKind::Block => SubscriptionBuffer::Block(VecDeque::new()),
        }
    }
}

/// The kinds of subscription a client can ask for.
#[derive(Debug, Clone, Copy, PartialEq, Eq)]
pub enum SubscriptionKind {
    /// New block headers.
    NewHeads,
    /// Logs.
    Logs,
    /// New pending transactions.
    NewPendingTransactions,
    /// Sync status.
    Syncing,
}

/// The arguments of a subscription request: the kind, and a filter.
#[derive(Debug)]
pub struct SubscribeArgs<F>(pub SubscriptionKind, pub Option<Box<F>>);

impl<F> InterestKind<F> {
    /// The interest a subscription request asks for: logs need a filter,
    /// new heads take none, and other kinds are unsupported.
    pub fn try_from(args: SubscribeArgs<F>) -> (r: Result<InterestKind<F>, String>)
        ensures
            ({
                let kind = args.0;
                let filter = args.1;
                &&& kind is Logs && filter is Some ==> r == Ok::<InterestKind<F>, String>(
                    InterestKind::Log(filter->Some_0),
                )
                &&& kind is Logs && filter is None ==> (r matches Err(m) && m@
                    == "missing filter for Logs subscription"@)
                &&& kind is NewHeads && filter is Some ==> (r matches Err(m) && m@
                    == "filter not supported for NewHeads subscription"@)
                &&& kind is NewHeads && filter is None ==> r == Ok::<InterestKind<F>, String>(
                    InterestKind::Block,
                )
                &&& kind is NewPendingTransactions ==> (r matches Err(m) && m@
                    == "unsupported subscription kind: NewPendingTransactions"@)
                &&& kind is Syncing ==> (r matches Err(m) && m@
                    == "unsupported subscription kind: Syncing"@)
            }),
    {
        let SubscribeArgs(kind, filter) = args;
        match kind {
            SubscriptionKind::Logs => match filter {
                Some(f) => Ok(InterestKind::Log(f)),
                None => Err(String::from_str("missing filter for Logs subscription")),
            },
            SubscriptionKind::NewHeads => match filter {
                Some(_) => Err(String::from_str("filter not supported for NewHeads subscription")),
                None => Ok(InterestKind::Block),
            },
            SubscriptionKind::NewPendingTransactions => Err(
                String::from_str("unsupported subscription kind: NewPendingTransactions"),
            ),
            SubscriptionKind::Syncing => Err(String::from_str("unsupported subscription kind: Syncing")),
        }
    }
}

/// One item of a filter's output: a log or a block hash.
#[derive(Debug, Clone, PartialEq, Eq)]
pub enum Either<L> {
    /// A log.
    Log(L),
    /// A block hash.
    Block(B256),
}

/// The output of a filter: a list of logs, a list of block hashes, or
/// nothing.
#[derive(Debug, Clone, PartialEq, Eq)]
pub enum FilterOutput<L> {
    /// Empty output.
    Empty,
    /// Logs.
    Log(VecDeque<L>),
    /// Block hashes.
    Block(VecDeque<B256>),
}

/// The length of a filter output.
pub open spec fn output_len<L>(o: FilterOutput<L>) -> nat {
    match o {
        FilterOutput::Empty => 0,
        FilterOutput::Log(v) => v@.len(),
        FilterOutput::Block(v) => v@.len(),
    }
}

/// True if two outputs can be joined: they are not logs and block hashes.
pub open spec fn outputs_compatible<L>(a: FilterOutput<L>, b: FilterOutput<L>) -> bool {
    !(a is Log && b is Block) && !(a is Block && b is Log)
}

/// Moves every item of `v` to a new deque, in order.
fn deque_from_vec<T>(v: Vec<T>) -> (r: VecDeque<T>)
    ensures
        r@ == v@,
{
    let ghost all = v@;
    let mut v = v;
    let mut out: VecDeque<T> = VecDeque::new();
    let n = v.len();
    let mut i: usize = 0;
    while i < n
        invariant
            n == all.len(),
            0 <= i <= n,
            v@ == all.subrange(i as int, n as int),
            out@ == all.subrange(0, i as int),
        decreases n - i,
    {
        let x = v.remove(0);
        out.push_back(x);
        assert(out@ =~= all.subrange(0, i + 1));
        assert(v@ =~= all.subrange(i + 1, n as int));
        i = i + 1;
    }
    assert(all.subrange(0, n as int) =~= all);
    out
}

impl<L> FilterOutput<L> {
    /// An empty filter output.
    pub fn empty() -> (r: Self)
        ensures
            r is Empty,
    {
        FilterOutput::Empty
    }

    /// A filter output of block hashes.
    pub fn from_block_hashes(hashes: Vec<B256>) -> (r: Self)
        ensures
            r matches FilterOutput::Block(v) && v@ == hashes@,
    {
        FilterOutput::Block(deque_from_vec(hashes))
    }

    /// A filter output of logs.
    pub fn from_logs(logs: Vec<L>) -> (r: Self)
        ensures
            r matches FilterOutput::Log(v) && v@ == logs@,
    {
        FilterOutput::Log(deque_from_vec(logs))
    }

    /// Collects logs: empty output when there are none.
    pub fn collect_logs(logs: Vec<L>) -> (r: Self)
        ensures
            logs@.len() == 0 ==> r is Empty,
            logs@.len() > 0 ==> (r matches FilterOutput::Log(v) && v@ == logs@),
    {
        if logs.len() == 0 {
            FilterOutput::Empty
        } else {
            FilterOutput::Log(deque_from_vec(logs))
        }
    }

    /// Collects block hashes: empty output when there are none.
    pub fn collect_block_hashes(hashes: Vec<B256>) -> (r: Self)
        ensures
            hashes@.len() == 0 ==> r is Empty,
            hashes@.len() > 0 ==> (r matches FilterOutput::Block(v) && v@ == hashes@),
    {
        if hashes.len() == 0 {
            FilterOutput::Empty
        } else {
            FilterOutput::Block(deque_from_vec(hashes))
        }
    }

    /// True if this is an empty filter output.
    pub fn is_empty(&self) -> (r: bool)
        ensures
            r == (output_len(*self) == 0),
    {
        self.len() == 0
    }

    /// The length of this filter output.
    pub fn len(&self) -> (r: usize)
        ensures
            r == output_len(*self),
    {
        match self {
            FilterOutput::Empty => 0,
            FilterOutput::Log(logs) => logs.len(),
            FilterOutput::Block(blocks) => blocks.len(),
        }
    }

    /// Extend this filter output with another of the same kind: the items
    /// of `other` follow those of `self`. Extending with an empty output
    /// changes nothing; an empty output takes the other's value.
    pub fn extend(&mut self, other: Self)
        requires
            outputs_compatible(*old(self), other),
        ensures
            output_extended(*old(self), other, *final(self)),
    {
        match other {
            FilterOutput::Empty => {},
            FilterOutput::Log(mut other_logs) => {
                match self {
                    FilterOutput::Log(logs) => logs.append(&mut other_logs),
                    _ => {
                        *self = FilterOutput::Log(other_logs);
                    },
                }
            },
            FilterOutput::Block(mut other_blocks) => {
                match self {
                    FilterOutput::Block(blocks) => blocks.append(&mut other_blocks),
                    _ => {
                        *self = FilterOutput::Block(other_blocks);
                    },
                }
            },
        }
    }

    /// Pop an item from the front of the filter output.
    pub fn pop_front(&mut self) -> (r: Option<Either<L>>)
        ensures
            output_len(*old(self)) == 0 ==> r is None && output_len(*final(self)) == 0,
            (*old(self)) is Empty ==> *final(self) == *old(self),
            (*old(self)) is Log && output_len(*old(self)) > 0 ==> r == Some(Either::Log((*old(self))->Log_0@[0]))
                && (*final(self) matches FilterOutput::Log(v) && v@ == (*old(self))->Log_0@.drop_first()),
            (*old(self)) is Block && output_len(*old(self)) > 0 ==> r == Some(Either::<L>::Block((*old(self))->Block_0@[0]))
                && (*final(self) matches FilterOutput::Block(v) && v@ == (*old(self))->Block_0@.drop_first()),
            (*old(self)) is Log ==> (*final(self)) is Log,
            (*old(self)) is Block ==> (*final(self)) is Block,
            output_len(*old(self)) > 0 ==> r == Some(output_items(*old(self))[0]) && output_items(
                *final(self),
            ) == output_items(*old(self)).drop_first(),
    {
        let ghost o = *self;
        proof {
            match o {
                FilterOutput::Log(v) => {
                    if v@.len() > 0 {
                        assert(output_items(o).drop_first() =~= v@.drop_first().map_values(|x: L| Either::<L>::Log(x)));
                    }
                },
                FilterOutput::Block(v) => {
                    if v@.len() > 0 {
                        assert(output_items(o).drop_first() =~= v@.drop_first().map_values(|x: B256| Either::<L>::Block(x)));
                    }
                },
                FilterOutput::Empty => {},
            }
        }
        match self {
            FilterOutput::Log(logs) => match logs.pop_front() {
                Some(l) => Some(Either::Log(l)),
                None => None,
            },
            FilterOutput::Block(blocks) => match blocks.pop_front() {
                Some(b) => Some(Either::Block(b)),
                None => None,
            },
            FilterOutput::Empty => None,
        }
    }
}

/// One item of a subscription buffer: a log or a block header.
#[derive(Debug, Clone, PartialEq, Eq)]
pub enum SubItem<L, H> {
    /// A log.
    Log(Box<L>),
    /// A block header.
    Block(Box<H>),
}

/// The buffer of a subscription: logs or block headers owed to the client.
#[derive(Debug, Clone, PartialEq, Eq)]
pub enum SubscriptionBuffer<L, H> {
    /// Logs.
    Log(VecDeque<L>),
    /// Block headers.
    Block(VecDeque<H>),
}

/// The length of a subscription buffer.
pub open spec fn buffer_len<L, H>(b: SubscriptionBuffer<L, H>) -> nat {
    match b {
        SubscriptionBuffer::Log(v) => v@.len(),
        SubscriptionBuffer::Block(v) => v@.len(),
    }
}

/// True if two buffers hold the same kind of item.
pub open spec fn same_kind<L, H>(a: SubscriptionBuffer<L, H>, b: SubscriptionBuffer<L, H>) -> bool {
    (a is Log && b is Log) || (a is Block && b is Block)
}

impl<L, H> SubscriptionBuffer<L, H> {
    /// A buffer of logs.
    pub fn from_logs(logs: Vec<L>) -> (r: Self)
        ensures
            r matches SubscriptionBuffer::Log(v) && v@ == logs@,
    {
        SubscriptionBuffer::Log(deque_from_vec(logs))
    }

    /// A buffer of block headers.
    pub fn from_headers(headers: Vec<H>) -> (r: Self)
        ensures
            r matches SubscriptionBuffer::Block(v) && v@ == headers@,
    {
        SubscriptionBuffer::Block(deque_from_vec(headers))
    }

    /// True if the buffer is empty.
    pub fn is_empty(&self) -> (r: bool)
        ensures
            r == (buffer_len(*self) == 0),
    {
        self.len() == 0
    }

    /// The number of items in the buffer.
    pub fn len(&self) -> (r: usize)
        ensures
            r == buffer_len(*self),
    {
        match self {
            SubscriptionBuffer::Log(buf) => buf.len(),
            SubscriptionBuffer::Block(buf) => buf.len(),
        }
    }

    /// Extend this buffer with another of the same kind: the items of
    /// `other` follow those of `self`.
    pub fn extend(&mut self, other: Self)
        requires
            same_kind(*old(self), other),
        ensures
            same_kind(*old(self), *final(self)),
            appended(*old(self), other, *final(self)),
            (*old(self)) is Log ==> (*final(self) matches SubscriptionBuffer::Log(v) && v@
                == (*old(self))->Log_0@ + other->Log_0@),
            (*old(self)) is Block ==> (*final(self) matches SubscriptionBuffer::Block(v) && v@
                == (*old(self))->Block_0@ + other->Block_0@),
    {
        match other {
            SubscriptionBuffer::Log(mut o) => match self {
                SubscriptionBuffer::Log(buf) => buf.append(&mut o),
                SubscriptionBuffer::Block(_) => {},
            },
            SubscriptionBuffer::Block(mut o) => match self {
                SubscriptionBuffer::Block(buf) => buf.append(&mut o),
                SubscriptionBuffer::Log(_) => {},
            },
        }
    }

    /// Pop the front of the buffer.
    pub fn pop_front(&mut self) -> (r: Option<SubItem<L, H>>)
        ensures
            same_kind(*old(self), *final(self)),
            buffer_len(*old(self)) == 0 ==> r is None && buffer_len(*final(self)) == 0,
            (*old(self)) is Log && buffer_len(*old(self)) > 0 ==> r == Some(SubItem::<L, H>::Log(Box::new((*old(self))->Log_0@[0])))
                && (*final(self) matches SubscriptionBuffer::Log(v) && v@ == (*old(self))->Log_0@.drop_first()),
            (*old(self)) is Block && buffer_len(*old(self)) > 0 ==> r == Some(SubItem::<L, H>::Block(Box::new((*old(self))->Block_0@[0])))
                && (*final(self) matches SubscriptionBuffer::Block(v) && v@ == (*old(self))->Block_0@.drop_first()),
            buffer_len(*old(self)) > 0 ==> r == Some(buffer_items(*old(self))[0]) && buffer_items(
                *final(self),
            ) == buffer_items(*old(self)).drop_first(),
    {
        let ghost o = *self;
        proof {
            match o {
                SubscriptionBuffer::Log(v) => {
                    if v@.len() > 0 {
                        assert(buffer_items(o).drop_first() =~= v@.drop_first().map_values(|x: L| SubItem::<L, H>::Log(Box::new(x))));
                    }
                },
                SubscriptionBuffer::Block(v) => {
                    if v@.len() > 0 {
                        assert(buffer_items(o).drop_first() =~= v@.drop_first().map_values(|x: H| SubItem::<L, H>::Block(Box::new(x))));
                    }
                },
            }
        }
        match self {
            SubscriptionBuffer::Log(buf) => match buf.pop_front() {
                Some(l) => Some(SubItem::Log(Box::new(l))),
                None => None,
            },
            SubscriptionBuffer::Block(buf) => match buf.pop_front() {
                Some(h) => Some(SubItem::Block(Box::new(h))),
                None => None,
            },
        }
    }
}

/// The items of a buffer, in order, as the task sends them.
pub open spec fn buffer_items<L, H>(b: SubscriptionBuffer<L, H>) -> Seq<SubItem<L, H>> {
    match b {
        SubscriptionBuffer::Log(v) => v@.map_values(|x: L| SubItem::<L, H>::Log(Box::new(x))),
        SubscriptionBuffer::Block(v) => v@.map_values(|x: H| SubItem::<L, H>::Block(Box::new(x))),
    }
}

/// True if the buffer `c` holds the items of `a` followed by those of
/// `b`, all of one kind.
pub open spec fn appended<L, H>(a: SubscriptionBuffer<L, H>, b: SubscriptionBuffer<L, H>, c: SubscriptionBuffer<L, H>) -> bool {
    match (a, b, c) {
        (SubscriptionBuffer::Log(x), SubscriptionBuffer::Log(y), SubscriptionBuffer::Log(z)) => z@ == x@ + y@,
        (SubscriptionBuffer::Block(x), SubscriptionBuffer::Block(y), SubscriptionBuffer::Block(z)) => z@ == x@ + y@,
        _ => false,
    }
}

/// Extending a buffer by another of its kind keeps every item once, in
/// order: the items of the first, then those of the second.
pub proof fn law_buffer_extend_keeps_order<L, H>(a: SubscriptionBuffer<L, H>, b: SubscriptionBuffer<L, H>, c: SubscriptionBuffer<L, H>)
    requires
        appended(a, b, c),
    ensures
        buffer_items(c) == buffer_items(a) + buffer_items(b),
        buffer_len(c) == buffer_len(a) + buffer_len(b),
{
    match (a, b, c) {
        (SubscriptionBuffer::Log(x), SubscriptionBuffer::Log(y), SubscriptionBuffer::Log(z)) => {
            assert(buffer_items(c) =~= buffer_items(a) + buffer_items(b));
        },
        (SubscriptionBuffer::Block(x), SubscriptionBuffer::Block(y), SubscriptionBuffer::Block(z)) => {
            assert(buffer_items(c) =~= buffer_items(a) + buffer_items(b));
        },
        _ => {},
    }
}

/// Extending an output by another adds their lengths.
pub proof fn law_extend_adds_lengths<L>(a: FilterOutput<L>, b: FilterOutput<L>, c: FilterOutput<L>)
    requires
        outputs_compatible(a, b),
        output_extended(a, b, c),
    ensures
        output_len(c) == output_len(a) + output_len(b),
        output_items(c) == output_items(a) + output_items(b),
{
    match (a, b) {
        (FilterOutput::Log(x), FilterOutput::Log(y)) => {
            assert(output_items(c) =~= output_items(a) + output_items(b));
        },
        (FilterOutput::Block(x), FilterOutput::Block(y)) => {
            assert(output_items(c) =~= output_items(a) + output_items(b));
        },
        (_, FilterOutput::Empty) => {
            assert(output_items(c) =~= output_items(a) + output_items(b));
        },
        _ => {
            assert(output_items(c) =~= output_items(a) + output_items(b));
        },
    }
}

/// What `FilterOutput::extend` makes of `a` and `b`: extending by an empty
/// output changes nothing, an empty output becomes the other, and outputs
/// of one kind are joined, `a`'s items first.
pub open spec fn output_extended<L>(a: FilterOutput<L>, b: FilterOutput<L>, c: FilterOutput<L>) -> bool {
    &&& b is Empty ==> c == a
    &&& a is Empty ==> c == b
    &&& a is Log && b is Log ==> (c matches FilterOutput::Log(v) && v@ == a->Log_0@ + b->Log_0@)
    &&& a is Block && b is Block ==> (c matches FilterOutput::Block(v) && v@ == a->Block_0@
        + b->Block_0@)
}

/// The items of a filter output, in order, as `pop_front` hands them out.
pub open spec fn output_items<L>(o: FilterOutput<L>) -> Seq<Either<L>> {
    match o {
        FilterOutput::Empty => Seq::empty(),
        FilterOutput::Log(v) => v@.map_values(|x: L| Either::<L>::Log(x)),
        FilterOutput::Block(v) => v@.map_values(|x: B256| Either::<L>::Block(x)),
    }
}

/// A transaction of a newly committed block: its hash, and its receipt's
/// logs, each with whether it matches the filter at hand.
#[derive(Debug, Clone, PartialEq, Eq)]
pub struct NotifTx<L> {
    /// The transaction hash.
    pub hash: B256,
    /// The logs, each with whether it matches the filter.
    pub logs: Vec<(L, bool)>,
}

/// A newly committed block: its number, hash and timestamp, whether its
/// logs bloom may hold logs that match the filter at hand, and its
/// transactions.
#[derive(Debug, Clone, PartialEq, Eq)]
pub struct NotifBlock<L> {
    /// The block number.
    pub number: u64,
    /// The block hash.
    pub hash: B256,
    /// The block timestamp.
    pub timestamp: u64,
    /// True if the bloom admits the filter's addresses and topics.
    pub bloom_matches: bool,
    /// The transactions, in block order.
    pub txs: Vec<NotifTx<L>>,
}

/// The RPC log of the `i`-th log of the `ti`-th transaction (hash
/// `tx_hash`) of the block `number`, `hash`, `timestamp`.
pub open spec fn spec_notif_log<L>(
    log: L,
    number: u64,
    hash: B256,
    timestamp: u64,
    ti: int,
    tx_hash: B256,
    i: int,
) -> RpcLog<L> {
    RpcLog {
        inner: log,
        block_hash: hash,
        block_number: number,
        block_timestamp: timestamp,
        transaction_hash: tx_hash,
        transaction_index: ti as u64,
        log_index: i as u64,
        removed: false,
    }
}

/// The matching logs of one transaction, in order, as RPC logs.
pub open spec fn spec_tx_matches<L>(
    number: u64,
    hash: B256,
    timestamp: u64,
    ti: int,
    tx_hash: B256,
    logs: Seq<(L, bool)>,
) -> Seq<RpcLog<L>>
    decreases logs.len(),
{
    if logs.len() == 0 {
        Seq::empty()
    } else {
        let i = logs.len() - 1;
        spec_tx_matches(number, hash, timestamp, ti, tx_hash, logs.drop_last()) + if logs.last().1 {
            seq![spec_notif_log(logs.last().0, number, hash, timestamp, ti, tx_hash, i)]
        } else {
            Seq::empty()
        }
    }
}

/// The matching logs of a run of transactions of one block, in order.
pub open spec fn spec_txs_matches<L>(number: u64, hash: B256, timestamp: u64, txs: Seq<NotifTx<L>>) -> Seq<
    RpcLog<L>,
>
    decreases txs.len(),
{
    if txs.len() == 0 {
        Seq::empty()
    } else {
        spec_txs_matches(number, hash, timestamp, txs.drop_last()) + spec_tx_matches(
            number,
            hash,
            timestamp,
            txs.len() - 1,
            txs.last().hash,
            txs.last().logs@,
        )
    }
}

/// The matching logs of a block: none if its bloom rules the filter out.
pub open spec fn spec_block_matches<L>(b: NotifBlock<L>) -> Seq<RpcLog<L>> {
    if b.bloom_matches {
        spec_txs_matches(b.number, b.hash, b.timestamp, b.txs@)
    } else {
        Seq::empty()
    }
}

/// The matching logs of a run of blocks, in order.
pub open spec fn spec_blocks_matches<L>(bs: Seq<NotifBlock<L>>) -> Seq<RpcLog<L>>
    decreases bs.len(),
{
    if bs.len() == 0 {
        Seq::empty()
    } else {
        spec_blocks_matches(bs.drop_last()) + spec_block_matches(bs.last())
    }
}

/// The matching logs of one transaction.
fn tx_matches<L>(number: u64, hash: B256, timestamp: u64, ti: usize, tx: NotifTx<L>) -> (r: Vec<RpcLog<L>>)
    ensures
        r@ == spec_tx_matches(number, hash, timestamp, ti as int, tx.hash, tx.logs@),
{
    let tx_hash = tx.hash;
    let ghost all = tx.logs@;
    let mut rest = tx.logs;
    let mut out: Vec<RpcLog<L>> = Vec::new();
    let n = rest.len();
    let mut i: usize = 0;
    while i < n
        invariant
            n == all.len(),
            0 <= i <= n,
            rest@ == all.subrange(i as int, n as int),
            out@ == spec_tx_matches(number, hash, timestamp, ti as int, tx_hash, all.take(i as int)),
        decreases n - i,
    {
        let (log, matches) = rest.remove(0);
        proof {
            assert(all.take(i + 1).drop_last() =~= all.take(i as int));
            assert(all.take(i + 1).last() == (log, matches));
        }
        if matches {
            out.push(
                RpcLog {
                    inner: log,
                    block_hash: hash,
                    block_number: number,
                    block_timestamp: timestamp,
                    transaction_hash: tx_hash,
                    transaction_index: ti as u64,
                    log_index: i as u64,
                    removed: false,
                },
            );
        }
        proof {
            assert(out@ =~= spec_tx_matches(number, hash, timestamp, ti as int, tx_hash, all.take(i + 1)));
        }
        i = i + 1;
    }
    assert(all.take(n as int) =~= all);
    out
}

/// The matching logs of one block.
fn block_matches<L>(b: NotifBlock<L>) -> (r: Vec<RpcLog<L>>)
    ensures
        r@ == spec_block_matches(b),
{
    let NotifBlock { number, hash, timestamp, bloom_matches, txs } = b;
    let mut out: Vec<RpcLog<L>> = Vec::new();
    if !bloom_matches {
        return out;
    }
    let ghost all = txs@;
    let mut rest = txs;
    let n = rest.len();
    let mut i: usize = 0;
    while i < n
        invariant
            n == all.len(),
            0 <= i <= n,
            rest@ == all.subrange(i as int, n as int),
            out@ == spec_txs_matches(number, hash, timestamp, all.take(i as int)),
        decreases n - i,
    {
        let tx = rest.remove(0);
        proof {
            assert(all.take(i + 1).drop_last() =~= all.take(i as int));
            assert(all.take(i + 1).last() == tx);
        }
        let mut found = tx_matches(number, hash, timestamp, i, tx);
        out.append(&mut found);
        i = i + 1;
    }
    assert(all.take(n as int) =~= all);
    out
}

/// The logs of newly committed blocks that match a filter, in block,
/// transaction and log order, each placed in the chain with its index
/// within its transaction's receipt. Blocks whose bloom rules the filter
/// out are skipped.
pub fn apply_filter<L>(blocks: Vec<NotifBlock<L>>) -> (r: Vec<RpcLog<L>>)
    ensures
        r@ == spec_blocks_matches(blocks@),
{
    let ghost all = blocks@;
    let mut rest = blocks;
    let mut out: Vec<RpcLog<L>> = Vec::new();
    let n = rest.len();
    let mut i: usize = 0;
    while i < n
        invariant
            n == all.len(),
            0 <= i <= n,
            rest@ == all.subrange(i as int, n as int),
            out@ == spec_blocks_matches(all.take(i as int)),
        decreases n - i,
    {
        let b = rest.remove(0);
        proof {
            assert(all.take(i + 1).drop_last() =~= all.take(i as int));
            assert(all.take(i + 1).last() == b);
        }
        let mut found = block_matches(b);
        out.append(&mut found);
        i = i + 1;
    }
    assert(all.take(n as int) =~= all);
    out
}

/// The matching logs of blocks one run after another are those of the
/// first run followed by those of the second: no block's logs are lost,
/// repeated or moved.
pub proof fn law_blocks_matches_concat<L>(bs1: Seq<NotifBlock<L>>, bs2: Seq<NotifBlock<L>>)
    ensures
        spec_blocks_matches(bs1 + bs2) == spec_blocks_matches(bs1) + spec_blocks_matches(bs2),
    decreases bs2.len(),
{
    if bs2.len() == 0 {
        assert(bs1 + bs2 =~= bs1);
        assert(spec_blocks_matches(bs2) =~= Seq::<RpcLog<L>>::empty());
        assert(spec_blocks_matches(bs1) + Seq::<RpcLog<L>>::empty() =~= spec_blocks_matches(bs1));
    } else {
        law_blocks_matches_concat(bs1, bs2.drop_last());
        assert((bs1 + bs2).drop_last() =~= bs1 + bs2.drop_last());
        assert((bs1 + bs2).last() == bs2.last());
        assert(spec_blocks_matches(bs1 + bs2) =~= spec_blocks_matches(bs1) + spec_blocks_matches(bs2));
    }
}

/// The matching logs of a single block are that block's matching logs.
pub proof fn law_blocks_matches_single<L>(b: NotifBlock<L>)
    ensures
        spec_blocks_matches(seq![b]) == spec_block_matches(b),
{
    assert(seq![b].drop_last() =~= Seq::<NotifBlock<L>>::empty());
    assert(seq![b].last() == b);
    assert(spec_blocks_matches(Seq::<NotifBlock<L>>::empty()) == Seq::<RpcLog<L>>::empty());
    assert(Seq::<RpcLog<L>>::empty() + spec_block_matches(b) =~= spec_block_matches(b));
}

/// A log that matches the filter, in a block whose bloom admits the filter,
/// is delivered: the output holds it, placed at its block, its transaction
/// (hash and index) and its index within that transaction's receipt.
pub proof fn law_matching_log_delivered<L>(bs: Seq<NotifBlock<L>>, i: int, t: int, k: int)
    requires
        0 <= i < bs.len(),
        bs[i].bloom_matches,
        0 <= t < bs[i].txs@.len(),
        0 <= k < bs[i].txs@[t].logs@.len(),
        bs[i].txs@[t].logs@[k].1,
    ensures
        spec_blocks_matches(bs).contains(
            (RpcLog {
                inner: bs[i].txs@[t].logs@[k].0,
                block_hash: bs[i].hash,
                block_number: bs[i].number,
                block_timestamp: bs[i].timestamp,
                transaction_hash: bs[i].txs@[t].hash,
                transaction_index: t as u64,
                log_index: k as u64,
                removed: false,
            }),
        ),
    decreases bs.len(),
{
    let b = bs[i];
    let x = RpcLog {
        inner: b.txs@[t].logs@[k].0,
        block_hash: b.hash,
        block_number: b.number,
        block_timestamp: b.timestamp,
        transaction_hash: b.txs@[t].hash,
        transaction_index: t as u64,
        log_index: k as u64,
        removed: false,
    };
    if i == bs.len() - 1 {
        lemma_txs_matches_contains(b.number, b.hash, b.timestamp, b.txs@, t, k);
        let prev = spec_blocks_matches(bs.drop_last());
        let m = spec_block_matches(b);
        let j = choose|j: int| 0 <= j < m.len() && m[j] == x;
        assert((prev + m)[prev.len() + j] == x);
    } else {
        law_matching_log_delivered(bs.drop_last(), i, t, k);
        assert(bs.drop_last()[i] == b);
        let prev = spec_blocks_matches(bs.drop_last());
        let j = choose|j: int| 0 <= j < prev.len() && prev[j] == x;
        assert((prev + spec_block_matches(bs.last()))[j] == x);
    }
}

/// A matching log of a transaction of a block is among the block's
/// transactions' matching logs.
proof fn lemma_txs_matches_contains<L>(number: u64, hash: B256, timestamp: u64, txs: Seq<NotifTx<L>>, t: int, k: int)
    requires
        0 <= t < txs.len(),
        0 <= k < txs[t].logs@.len(),
        txs[t].logs@[k].1,
    ensures
        spec_txs_matches(number, hash, timestamp, txs).contains(
            spec_notif_log(txs[t].logs@[k].0, number, hash, timestamp, t, txs[t].hash, k),
        ),
    decreases txs.len(),
{
    let x = spec_notif_log(txs[t].logs@[k].0, number, hash, timestamp, t, txs[t].hash, k);
    let prev = spec_txs_matches(number, hash, timestamp, txs.drop_last());
    if t == txs.len() - 1 {
        lemma_tx_matches_contains(number, hash, timestamp, t, txs[t].hash, txs[t].logs@, k);
        let m = spec_tx_matches(number, hash, timestamp, t, txs[t].hash, txs[t].logs@);
        let j = choose|j: int| 0 <= j < m.len() && m[j] == x;
        assert((prev + m)[prev.len() + j] == x);
    } else {
        lemma_txs_matches_contains(number, hash, timestamp, txs.drop_last(), t, k);
        assert(txs.drop_last()[t] == txs[t]);
        let j = choose|j: int| 0 <= j < prev.len() && prev[j] == x;
        let last = txs.len() - 1;
        assert((prev + spec_tx_matches(number, hash, timestamp, last, txs.last().hash, txs.last().logs@))[j] == x);
    }
}

/// A matching log of a transaction is among its matching logs.
proof fn lemma_tx_matches_contains<L>(
    number: u64,
    hash: B256,
    timestamp: u64,
    ti: int,
    tx_hash: B256,
    logs: Seq<(L, bool)>,
    k: int,
)
    requires
        0 <= k < logs.len(),
        logs[k].1,
    ensures
        spec_tx_matches(number, hash, timestamp, ti, tx_hash, logs).contains(
            spec_notif_log(logs[k].0, number, hash, timestamp, ti, tx_hash, k),
        ),
    decreases logs.len(),
{
    let x = spec_notif_log(logs[k].0, number, hash, timestamp, ti, tx_hash, k);
    let prev = spec_tx_matches(number, hash, timestamp, ti, tx_hash, logs.drop_last());
    if k == logs.len() - 1 {
        assert(logs.last() == logs[k]);
        assert((prev + seq![x])[prev.len() as int] == x);
    } else {
        lemma_tx_matches_contains(number, hash, timestamp, ti, tx_hash, logs.drop_last(), k);
        assert(logs.drop_last()[k] == logs[k]);
        let j = choose|j: int| 0 <= j < prev.len() && prev[j] == x;
        let tail = if logs.last().1 {
            seq![spec_notif_log(logs.last().0, number, hash, timestamp, ti, tx_hash, logs.len() - 1)]
        } else {
            Seq::empty()
        };
        assert((prev + tail)[j] == x);
    }
}

/// True if `x` is the RPC log of the `k`-th log of the `t`-th transaction
/// of block `i` of `bs`, that block's bloom admits the filter, and that log
/// matches it.
pub open spec fn is_matching_log_of<L>(bs: Seq<NotifBlock<L>>, x: RpcLog<L>, i: int, t: int, k: int) -> bool {
    &&& 0 <= i < bs.len()
    &&& bs[i].bloom_matches
    &&& 0 <= t < bs[i].txs@.len()
    &&& 0 <= k < bs[i].txs@[t].logs@.len()
    &&& bs[i].txs@[t].logs@[k].1
    &&& x == (RpcLog {
        inner: bs[i].txs@[t].logs@[k].0,
        block_hash: bs[i].hash,
        block_number: bs[i].number,
        block_timestamp: bs[i].timestamp,
        transaction_hash: bs[i].txs@[t].hash,
        transaction_index: t as u64,
        log_index: k as u64,
        removed: false,
    })
}

/// Only matching logs are delivered: every log in the output is the RPC log
/// of a matching log of a transaction of a block whose bloom admits the
/// filter.
pub proof fn law_only_matching_logs_delivered<L>(bs: Seq<NotifBlock<L>>)
    ensures
        forall|x: RpcLog<L>|
            #[trigger] spec_blocks_matches(bs).contains(x) ==> exists|i: int, t: int, k: int|
                is_matching_log_of(bs, x, i, t, k),
    decreases bs.len(),
{
    if bs.len() > 0 {
        law_only_matching_logs_delivered(bs.drop_last());
        let prev = spec_blocks_matches(bs.drop_last());
        let b = bs.last();
        let last = bs.len() - 1;
        let m = spec_block_matches(b);
        assert(spec_blocks_matches(bs) == prev + m);
        lemma_txs_matches_sound(b.number, b.hash, b.timestamp, b.txs@);
        assert forall|x: RpcLog<L>| #[trigger] spec_blocks_matches(bs).contains(x) implies exists|i: int, t: int, k: int|
            is_matching_log_of(bs, x, i, t, k) by {
            let j = choose|j: int| 0 <= j < spec_blocks_matches(bs).len() && spec_blocks_matches(bs)[j] == x;
            if j < prev.len() {
                assert(prev[j] == x);
                assert(prev.contains(x));
                let (i, t, k) = choose|i: int, t: int, k: int| is_matching_log_of(bs.drop_last(), x, i, t, k);
                assert(bs.drop_last()[i] == bs[i]);
                assert(is_matching_log_of(bs, x, i, t, k));
            } else {
                assert(m[j - prev.len()] == x);
                assert(b.bloom_matches);
                assert(spec_txs_matches(b.number, b.hash, b.timestamp, b.txs@).contains(x));
                let (t, k) = choose|t: int, k: int|
                    0 <= t < b.txs@.len() && 0 <= k < b.txs@[t].logs@.len() && b.txs@[t].logs@[k].1
                        && x == spec_notif_log(b.txs@[t].logs@[k].0, b.number, b.hash, b.timestamp, t, b.txs@[t].hash, k);
                assert(bs[last] == b);
                assert(is_matching_log_of(bs, x, last, t, k));
            }
        }
    }
}

/// Every matching log of a block's transactions comes from one of them.
proof fn lemma_txs_matches_sound<L>(number: u64, hash: B256, timestamp: u64, txs: Seq<NotifTx<L>>)
    ensures
        forall|x: RpcLog<L>|
            #[trigger] spec_txs_matches(number, hash, timestamp, txs).contains(x) ==> exists|t: int, k: int|
                0 <= t < txs.len() && 0 <= k < txs[t].logs@.len() && txs[t].logs@[k].1 && x
                    == spec_notif_log(txs[t].logs@[k].0, number, hash, timestamp, t, txs[t].hash, k),
    decreases txs.len(),
{
    if txs.len() > 0 {
        lemma_txs_matches_sound(number, hash, timestamp, txs.drop_last());
        let prev = spec_txs_matches(number, hash, timestamp, txs.drop_last());
        let last = txs.len() - 1;
        let tx = txs.last();
        let m = spec_tx_matches(number, hash, timestamp, last, tx.hash, tx.logs@);
        assert(spec_txs_matches(number, hash, timestamp, txs) == prev + m);
        lemma_tx_matches_sound(number, hash, timestamp, last, tx.hash, tx.logs@);
        assert forall|x: RpcLog<L>| #[trigger] spec_txs_matches(number, hash, timestamp, txs).contains(x) implies exists|t: int, k: int|
            0 <= t < txs.len() && 0 <= k < txs[t].logs@.len() && txs[t].logs@[k].1 && x
                == spec_notif_log(txs[t].logs@[k].0, number, hash, timestamp, t, txs[t].hash, k) by {
            let j = choose|j: int| 0 <= j < (prev + m).len() && (prev + m)[j] == x;
            if j < prev.len() {
                assert(prev[j] == x);
                assert(prev.contains(x));
                let (t, k) = choose|t: int, k: int|
                    0 <= t < txs.drop_last().len() && 0 <= k < txs.drop_last()[t].logs@.len()
                        && txs.drop_last()[t].logs@[k].1 && x == spec_notif_log(
                        txs.drop_last()[t].logs@[k].0,
                        number,
                        hash,
                        timestamp,
                        t,
                        txs.drop_last()[t].hash,
                        k,
                    );
                assert(txs.drop_last()[t] == txs[t]);
            } else {
                assert(m[j - prev.len()] == x);
                assert(m.contains(x));
                let k = choose|k: int|
                    0 <= k < tx.logs@.len() && tx.logs@[k].1 && x == spec_notif_log(
                        tx.logs@[k].0,
                        number,
                        hash,
                        timestamp,
                        last,
                        tx.hash,
                        k,
                    );
                assert(txs[last] == tx);
            }
        }
    }
}

/// Every matching log of a transaction comes from one of its logs that
/// matches.
proof fn lemma_tx_matches_sound<L>(number: u64, hash: B256, timestamp: u64, ti: int, tx_hash: B256, logs: Seq<(L, bool)>)
    ensures
        forall|x: RpcLog<L>|
            #[trigger] spec_tx_matches(number, hash, timestamp, ti, tx_hash, logs).contains(x) ==> exists|k: int|
                0 <= k < logs.len() && logs[k].1 && x == spec_notif_log(logs[k].0, number, hash, timestamp, ti, tx_hash, k),
    decreases logs.len(),
{
    if logs.len() > 0 {
        lemma_tx_matches_sound(number, hash, timestamp, ti, tx_hash, logs.drop_last());
        let prev = spec_tx_matches(number, hash, timestamp, ti, tx_hash, logs.drop_last());
        let last = logs.len() - 1;
        let tail = if logs.last().1 {
            seq![spec_notif_log(logs.last().0, number, hash, timestamp, ti, tx_hash, last)]
        } else {
            Seq::<RpcLog<L>>::empty()
        };
        assert(spec_tx_matches(number, hash, timestamp, ti, tx_hash, logs) == prev + tail);
        assert forall|x: RpcLog<L>| #[trigger] spec_tx_matches(number, hash, timestamp, ti, tx_hash, logs).contains(x) implies exists|k: int|
            0 <= k < logs.len() && logs[k].1 && x == spec_notif_log(logs[k].0, number, hash, timestamp, ti, tx_hash, k) by {
            let j = choose|j: int| 0 <= j < (prev + tail).len() && (prev + tail)[j] == x;
            if j < prev.len() {
                assert(prev[j] == x);
                assert(prev.contains(x));
                let k = choose|k: int|
                    0 <= k < logs.drop_last().len() && logs.drop_last()[k].1 && x == spec_notif_log(
                        logs.drop_last()[k].0,
                        number,
                        hash,
                        timestamp,
                        ti,
                        tx_hash,
                        k,
                    );
                assert(logs.drop_last()[k] == logs[k]);
            } else {
                assert(tail[j - prev.len()] == x);
                assert(logs.last() == logs[last]);
            }
        }
    }
}

impl<F> InterestKind<F> {
    /// What a subscription of this kind is owed of newly committed blocks:
    /// their headers for a block subscription; for a log subscription, the
    /// matching logs of `blocks`.
    pub fn filter_notification_for_sub<L, H>(&self, headers: Vec<H>, blocks: Vec<NotifBlock<L>>) -> (r:
        SubscriptionBuffer<RpcLog<L>, H>)
        ensures
            self is Block ==> (r matches SubscriptionBuffer::Block(v) && v@ == headers@),
            self is Log ==> (r matches SubscriptionBuffer::Log(v) && v@ == spec_blocks_matches(
                blocks@,
            )),
    {
        if self.is_block() {
            SubscriptionBuffer::from_headers(headers)
        } else {
            SubscriptionBuffer::from_logs(apply_filter(blocks))
        }
    }
}

} // verus!
