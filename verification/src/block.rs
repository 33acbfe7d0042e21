//! The events of a host block, grouped for the rollup, and the extractor
//! that walks a chain of host blocks.
use vstd::prelude::*;
use crate::events::{
    names_chain, outputs_on_chain, BlockHeader, BlockSubmitted, Enter, EnterToken, Events, Filled,
    OrdersEvent, Transact,
};
use crate::extract::{
    ev_view, extract_log, spec_extract_log, EventsView, ExtractedEvent, ExtractedEventView,
    HostBlock, HostLog, HostTx, SystemConstants,
};
use crate::orders::Output;
use crate::primitives::B256;

verus! {

/// The extracted events of a host transaction's logs, in log order.
pub open spec fn spec_tx_events(
    c: SystemConstants,
    tx_hash: B256,
    is_eip4844: bool,
    logs: Seq<HostLog>,
) -> Seq<ExtractedEventView>
    decreases logs.len(),
{
    if logs.len() == 0 {
        Seq::empty()
    } else {
        let prev = spec_tx_events(c, tx_hash, is_eip4844, logs.drop_last());
        match spec_extract_log(c, logs.last()) {
            Some(e) => prev.push(
                ExtractedEventView {
                    tx_hash,
                    is_eip4844,
                    log_index: (logs.len() - 1) as usize,
                    event: e,
                },
            ),
            None => prev,
        }
    }
}

/// The extracted events of a host block's transactions, in order.
pub open spec fn spec_block_events(c: SystemConstants, txs: Seq<HostTx>) -> Seq<ExtractedEventView>
    decreases txs.len(),
{
    if txs.len() == 0 {
        Seq::empty()
    } else {
        spec_block_events(c, txs.drop_last()) + spec_tx_events(
            c,
            txs.last().hash,
            txs.last().is_eip4844,
            txs.last().logs@,
        )
    }
}

/// Extracts the Signet events of a host block: for each transaction, for
/// each log of its receipt, the log's event (if any) with the transaction
/// hash and the log's index in the receipt.
pub fn extract_block(c: &SystemConstants, block: HostBlock) -> (r: Vec<ExtractedEvent<Events>>)
    ensures
        r@.map_values(|e: ExtractedEvent<Events>| ev_view(e)) == spec_block_events(*c, block.txs@),
{
    let ghost all_txs = block.txs@;
    let mut txs = block.txs;
    let mut out: Vec<ExtractedEvent<Events>> = Vec::new();
    let n = txs.len();
    let mut i: usize = 0;
    while i < n
        invariant
            n == all_txs.len(),
            0 <= i <= n,
            txs@ == all_txs.subrange(i as int, n as int),
            out@.map_values(|e: ExtractedEvent<Events>| ev_view(e)) == spec_block_events(
                *c,
                all_txs.subrange(0, i as int),
            ),
        decreases n - i,
    {
        let tx = txs.remove(0);
        assert(tx == all_txs[i as int]);
        let ghost before = out@;
        let tx_events = extract_tx(c, tx.hash, tx.is_eip4844, tx.logs);
        let mut evs = tx_events;
        let ghost evs0 = evs@;
        let m = evs.len();
        let mut k: usize = 0;
        while k < m
            invariant
                m == evs0.len(),
                0 <= k <= m,
                evs@ == evs0.subrange(k as int, m as int),
                out@ == before + evs0.subrange(0, k as int),
            decreases m - k,
        {
            let e = evs.remove(0);
            out.push(e);
            proof {
                assert(out@ =~= before + evs0.subrange(0, k + 1));
            }
            k = k + 1;
        }
        proof {
            assert(evs0.subrange(0, m as int) =~= evs0);
            assert(all_txs.subrange(0, i + 1).drop_last() =~= all_txs.subrange(0, i as int));
            assert(all_txs.subrange(0, i + 1).last() == tx);
            assert((before + evs0).map_values(|e: ExtractedEvent<Events>| ev_view(e)) =~= before.map_values(
                |e: ExtractedEvent<Events>| ev_view(e),
            ) + evs0.map_values(|e: ExtractedEvent<Events>| ev_view(e)));
        }
        assert(txs@ =~= all_txs.subrange(i + 1, n as int));
        i = i + 1;
    }
    assert(all_txs.subrange(0, n as int) =~= all_txs);
    out
}

/// Extracts the Signet events of one transaction's receipt logs.
fn extract_tx(c: &SystemConstants, tx_hash: B256, is_eip4844: bool, logs: Vec<HostLog>) -> (r: Vec<
    ExtractedEvent<Events>,
>)
    ensures
        r@.map_values(|e: ExtractedEvent<Events>| ev_view(e)) == spec_tx_events(
            *c,
            tx_hash,
            is_eip4844,
            logs@,
        ),
{
    let ghost all_logs = logs@;
    let mut logs = logs;
    let mut out: Vec<ExtractedEvent<Events>> = Vec::new();
    let n = logs.len();
    let mut i: usize = 0;
    while i < n
        invariant
            n == all_logs.len(),
            0 <= i <= n,
            logs@ == all_logs.subrange(i as int, n as int),
            out@.map_values(|e: ExtractedEvent<Events>| ev_view(e)) == spec_tx_events(
                *c,
                tx_hash,
                is_eip4844,
                all_logs.subrange(0, i as int),
            ),
        decreases n - i,
    {
        let log = logs.remove(0);
        assert(log == all_logs[i as int]);
        let ghost before = out@;
        let e = extract_log(c, log);
        proof {
            assert(all_logs.subrange(0, i + 1).drop_last() =~= all_logs.subrange(0, i as int));
            assert(all_logs.subrange(0, i + 1).last() == log);
        }
        match e {
            Some(event) => {
                out.push(ExtractedEvent { tx_hash, is_eip4844, log_index: i, event });
                proof {
                    assert(out@.map_values(|e: ExtractedEvent<Events>| ev_view(e)) =~= before.map_values(
                        |e: ExtractedEvent<Events>| ev_view(e),
                    ).push(ev_view(out@.last())));
                }
            },
            None => {},
        }
        assert(logs@ =~= all_logs.subrange(i + 1, n as int));
        i = i + 1;
    }
    assert(all_logs.subrange(0, n as int) =~= all_logs);
    out
}

/// Events extracted from a host block, grouped by kind.
#[derive(Debug, Clone)]
#[non_exhaustive]
pub struct HostEvents {
    /// The submitted block, if any.
    pub submitted: Option<ExtractedEvent<BlockSubmitted>>,
    /// The enters.
    pub enters: Vec<ExtractedEvent<Enter>>,
    /// The transacts.
    pub transacts: Vec<ExtractedEvent<Transact>>,
    /// The enter tokens.
    pub enter_tokens: Vec<ExtractedEvent<EnterToken>>,
}

impl HostEvents {
    /// No events.
    pub fn new() -> (r: Self)
        ensures
            r.submitted is None,
            r.enters@.len() == 0,
            r.transacts@.len() == 0,
            r.enter_tokens@.len() == 0,
    {
        HostEvents { submitted: None, enters: Vec::new(), transacts: Vec::new(), enter_tokens: Vec::new() }
    }

    /// Add an `Enter` event.
    pub fn ingest_enter(&mut self, event: ExtractedEvent<Enter>)
        ensures
            final(self).enters@ == old(self).enters@.push(event),
            final(self).submitted == old(self).submitted,
            final(self).transacts@ == old(self).transacts@,
            final(self).enter_tokens@ == old(self).enter_tokens@,
    {
        self.enters.push(event);
    }

    /// Add an `EnterToken` event.
    pub fn ingest_enter_token(&mut self, event: ExtractedEvent<EnterToken>)
        ensures
            final(self).enter_tokens@ == old(self).enter_tokens@.push(event),
            final(self).submitted == old(self).submitted,
            final(self).transacts@ == old(self).transacts@,
            final(self).enters@ == old(self).enters@,
    {
        self.enter_tokens.push(event);
    }

    /// Add a `Transact` event.
    pub fn ingest_transact(&mut self, event: ExtractedEvent<Transact>)
        ensures
            final(self).transacts@ == old(self).transacts@.push(event),
            final(self).submitted == old(self).submitted,
            final(self).enters@ == old(self).enters@,
            final(self).enter_tokens@ == old(self).enter_tokens@,
    {
        self.transacts.push(event);
    }

    /// Record the `BlockSubmitted` event, replacing any earlier one.
    pub fn ingest_block_submitted(&mut self, event: ExtractedEvent<BlockSubmitted>)
        ensures
            final(self).submitted == Some(event),
            final(self).transacts@ == old(self).transacts@,
            final(self).enters@ == old(self).enters@,
            final(self).enter_tokens@ == old(self).enter_tokens@,
    {
        self.submitted = Some(event);
    }
}

impl Default for HostEvents {
    fn default() -> (r: Self)
        ensures
            r.submitted is None,
            r.enters@.len() == 0,
            r.transacts@.len() == 0,
            r.enter_tokens@.len() == 0,
    {
        HostEvents::new()
    }
}

/// The extracts of a host block as values.
pub struct ExtractsView {
    /// The host chain id.
    pub host_chain_id: u64,
    /// The host block number.
    pub host_block_number: u64,
    /// The host block timestamp.
    pub host_block_timestamp: u64,
    /// The rollup chain id.
    pub chain_id: u64,
    /// The rollup block number.
    pub ru_height: u64,
    /// The submitted block, if any.
    pub submitted: Option<ExtractedEvent<BlockSubmitted>>,
    /// The enters.
    pub enters: Seq<ExtractedEvent<Enter>>,
    /// The transacts.
    pub transacts: Seq<ExtractedEvent<Transact>>,
    /// The enter tokens.
    pub enter_tokens: Seq<ExtractedEvent<EnterToken>>,
    /// The outputs of each fill, in order.
    pub fills: Seq<Seq<Output>>,
}

/// The output of extracting a host block: the chain ids and heights, the
/// host block's number and timestamp, the events, and the fills present in
/// the host block.
#[derive(Debug, Clone)]
pub struct Extracts {
    /// The host chain id.
    pub host_chain_id: u64,
    /// The rollup chain id.
    pub chain_id: u64,
    /// The rollup block number.
    pub ru_height: u64,
    /// The events.
    pub events: HostEvents,
    /// The host block number.
    pub host_block_number: u64,
    /// The host block timestamp.
    pub host_block_timestamp: u64,
    /// The fills present in the host block, in order.
    pub fills: Vec<Filled>,
}

/// Extracts with no events.
pub open spec fn spec_new_extracts(
    host_chain_id: u64,
    host_block_number: u64,
    host_block_timestamp: u64,
    chain_id: u64,
    ru_height: u64,
) -> ExtractsView {
    ExtractsView {
        host_chain_id,
        host_block_number,
        host_block_timestamp,
        chain_id,
        ru_height,
        submitted: None,
        enters: Seq::empty(),
        transacts: Seq::empty(),
        enter_tokens: Seq::empty(),
        fills: Seq::empty(),
    }
}

/// The extracts after ingesting one event: enters, enter tokens and
/// transacts join their lists, a fill joins the fills, and a submitted
/// block replaces any earlier one.
pub open spec fn spec_ingest(x: ExtractsView, ev: ExtractedEventView) -> ExtractsView {
    match ev.event {
        EventsView::Enter(e) => ExtractsView {
            enters: x.enters.push(
                ExtractedEvent {
                    tx_hash: ev.tx_hash,
                    is_eip4844: ev.is_eip4844,
                    log_index: ev.log_index,
                    event: e,
                },
            ),
            ..x
        },
        EventsView::EnterToken(e) => ExtractsView {
            enter_tokens: x.enter_tokens.push(
                ExtractedEvent {
                    tx_hash: ev.tx_hash,
                    is_eip4844: ev.is_eip4844,
                    log_index: ev.log_index,
                    event: e,
                },
            ),
            ..x
        },
        EventsView::Transact(e) => ExtractsView {
            transacts: x.transacts.push(
                ExtractedEvent {
                    tx_hash: ev.tx_hash,
                    is_eip4844: ev.is_eip4844,
                    log_index: ev.log_index,
                    event: e,
                },
            ),
            ..x
        },
        EventsView::BlockSubmitted(e) => ExtractsView {
            submitted: Some(
                ExtractedEvent {
                    tx_hash: ev.tx_hash,
                    is_eip4844: ev.is_eip4844,
                    log_index: ev.log_index,
                    event: e,
                },
            ),
            ..x
        },
        EventsView::Filled(outputs) => ExtractsView { fills: x.fills.push(outputs), ..x },
    }
}

/// The extracts after ingesting `evs` in order.
pub open spec fn spec_ingest_all(x: ExtractsView, evs: Seq<ExtractedEventView>) -> ExtractsView
    decreases evs.len(),
{
    if evs.len() == 0 {
        x
    } else {
        spec_ingest(spec_ingest_all(x, evs.drop_last()), evs.last())
    }
}

impl View for Extracts {
    type V = ExtractsView;

    open spec fn view(&self) -> ExtractsView {
        ExtractsView {
            host_chain_id: self.host_chain_id,
            host_block_number: self.host_block_number,
            host_block_timestamp: self.host_block_timestamp,
            chain_id: self.chain_id,
            ru_height: self.ru_height,
            submitted: self.events.submitted,
            enters: self.events.enters@,
            transacts: self.events.transacts@,
            enter_tokens: self.events.enter_tokens@,
            fills: self.fills@.map_values(|f: Filled| f.outputs@),
        }
    }
}

impl Extracts {
    /// Extracts of the host block `host_block_number` (with its timestamp),
    /// with no events yet.
    pub fn new(
        host_chain_id: u64,
        host_block_number: u64,
        host_block_timestamp: u64,
        chain_id: u64,
        ru_height: u64,
    ) -> (r: Self)
        ensures
            r@ == spec_new_extracts(
                host_chain_id,
                host_block_number,
                host_block_timestamp,
                chain_id,
                ru_height,
            ),
    {
        let r = Extracts {
            host_chain_id,
            chain_id,
            ru_height,
            events: HostEvents::new(),
            host_block_number,
            host_block_timestamp,
            fills: Vec::new(),
        };
        assert(r@.enters =~= Seq::<ExtractedEvent<Enter>>::empty());
        assert(r@.transacts =~= Seq::<ExtractedEvent<Transact>>::empty());
        assert(r@.enter_tokens =~= Seq::<ExtractedEvent<EnterToken>>::empty());
        assert(r@.fills =~= Seq::<Seq<Output>>::empty());
        r
    }

    /// Extracts of the host block `host_block_number` with zero chain ids
    /// and rollup height, and no events.
    pub fn empty(host_block_number: u64, host_block_timestamp: u64) -> (r: Self)
        ensures
            r@ == spec_new_extracts(0, host_block_number, host_block_timestamp, 0, 0),
    {
        Extracts::new(0, host_block_number, host_block_timestamp, 0, 0)
    }

    /// True if the host block contains a `BlockSubmitted` event.
    pub fn contains_block(&self) -> (r: bool)
        ensures
            r == self@.submitted is Some,
    {
        self.events.submitted.is_some()
    }

    /// The transacts.
    pub fn transacts(&self) -> (r: &Vec<ExtractedEvent<Transact>>)
        ensures
            r@ == self@.transacts,
    {
        &self.events.transacts
    }

    /// The enters.
    pub fn enters(&self) -> (r: &Vec<ExtractedEvent<Enter>>)
        ensures
            r@ == self@.enters,
    {
        &self.events.enters
    }

    /// The enter tokens.
    pub fn enter_tokens(&self) -> (r: &Vec<ExtractedEvent<EnterToken>>)
        ensures
            r@ == self@.enter_tokens,
    {
        &self.events.enter_tokens
    }

    /// The fills present in the host block, in order.
    pub fn aggregate_fills(&self) -> (r: &Vec<Filled>)
        ensures
            r@.map_values(|f: Filled| f.outputs@) == self@.fills,
    {
        &self.fills
    }

    /// The host block number.
    pub fn host_block_number(&self) -> (r: u64)
        ensures
            r == self@.host_block_number,
    {
        self.host_block_number
    }

    /// The host block timestamp.
    pub fn host_block_timestamp(&self) -> (r: u64)
        ensures
            r == self@.host_block_timestamp,
    {
        self.host_block_timestamp
    }

    /// The header of the block that was submitted, if any.
    pub fn ru_header(&self) -> (r: Option<BlockHeader>)
        ensures
            self@.submitted is None ==> r is None,
            self@.submitted matches Some(s) ==> (r matches Some(h) && h.rollup_chain_id
                == s.event.rollup_chain_id && h.host_block_number.value()
                == self@.host_block_number && h.gas_limit == s.event.gas_limit
                && h.reward_address == s.event.reward_address && h.block_data_hash
                == s.event.block_data_hash),
    {
        match &self.events.submitted {
            Some(s) => Some(s.ru_header(self.host_block_number)),
            None => None,
        }
    }

    /// Ingest an event: enters, enter tokens and transacts join their
    /// lists, a fill joins the fills, and a submitted block replaces any
    /// earlier one.
    pub fn ingest_event(&mut self, event: ExtractedEvent<Events>)
        ensures
            final(self)@ == spec_ingest(old(self)@, ev_view(event)),
    {
        let ghost ev = ev_view(event);
        match event.event {
            Events::Enter(_) => {
                match event.try_into_enter() {
                    Ok(e) => self.events.ingest_enter(e),
                    Err(_) => {},
                }
            },
            Events::EnterToken(_) => {
                match event.try_into_enter_token() {
                    Ok(e) => self.events.ingest_enter_token(e),
                    Err(_) => {},
                }
            },
            Events::Filled(fill) => {
                self.fills.push(fill);
                proof {
                    assert(self.fills@.map_values(|f: Filled| f.outputs@) =~= old(self).fills@.map_values(
                        |f: Filled| f.outputs@,
                    ).push(fill.outputs@));
                }
            },
            Events::Transact(_) => {
                match event.try_into_transact() {
                    Ok(e) => self.events.ingest_transact(e),
                    Err(_) => {},
                }
            },
            Events::BlockSubmitted(_) => {
                match event.try_into_block_submitted() {
                    Ok(e) => self.events.ingest_block_submitted(e),
                    Err(_) => {},
                }
            },
        }
        assert(self@ == spec_ingest(old(self)@, ev));
    }
}

/// The extracts of a host block above the deploy height.
pub open spec fn spec_block_extracts(c: SystemConstants, b: HostBlock) -> ExtractsView {
    spec_ingest_all(
        spec_new_extracts(
            c.host_chain_id,
            b.number,
            b.timestamp,
            c.ru_chain_id,
            (b.number - c.host_deploy_height) as u64,
        ),
        spec_block_events(c, b.txs@),
    )
}

/// The extracts of a chain of host blocks: one per block above the deploy
/// height, in order.
pub open spec fn spec_extract_signet(c: SystemConstants, blocks: Seq<HostBlock>) -> Seq<ExtractsView>
    decreases blocks.len(),
{
    if blocks.len() == 0 {
        Seq::empty()
    } else {
        let prev = spec_extract_signet(c, blocks.drop_last());
        if blocks.last().number > c.host_deploy_height {
            prev.push(spec_block_extracts(c, blocks.last()))
        } else {
            prev
        }
    }
}

/// Extracts Signet events from a chain, using a set of system constants.
#[derive(Debug, Clone)]
pub struct Extractor {
    constants: SystemConstants,
}

impl Extractor {
    /// The system constants.
    pub closed spec fn spec_constants(self) -> SystemConstants {
        self.constants
    }

    /// Create a new extractor from system constants.
    pub fn new(constants: SystemConstants) -> (r: Self)
        ensures
            r.spec_constants() == constants,
    {
        Extractor { constants }
    }

    /// The system constants.
    pub fn constants(&self) -> (r: &SystemConstants)
        ensures
            *r == self.spec_constants(),
    {
        &self.constants
    }

    /// The Signet extracts of a chain: blocks at or below the host deploy
    /// height are skipped; for each other block, its events are ingested,
    /// in order, into extracts at rollup height `number - deploy height`.
    pub fn extract_signet(&self, chain: Vec<HostBlock>) -> (r: Vec<Extracts>)
        ensures
            r@.map_values(|x: Extracts| x@) == spec_extract_signet(self.spec_constants(), chain@),
    {
        let c = &self.constants;
        let ghost all = chain@;
        let mut blocks = chain;
        let mut out: Vec<Extracts> = Vec::new();
        let n = blocks.len();
        let mut i: usize = 0;
        while i < n
            invariant
                *c == self.spec_constants(),
                n == all.len(),
                0 <= i <= n,
                blocks@ == all.subrange(i as int, n as int),
                out@.map_values(|x: Extracts| x@) == spec_extract_signet(*c, all.subrange(0, i as int)),
            decreases n - i,
        {
            let block = blocks.remove(0);
            assert(block == all[i as int]);
            let ghost before = out@;
            proof {
                assert(all.subrange(0, i + 1).drop_last() =~= all.subrange(0, i as int));
                assert(all.subrange(0, i + 1).last() == block);
            }
            if block.number > c.host_deploy_height {
                let ru_height = match c.host_block_to_rollup_block_num(block.number) {
                    Some(h) => h,
                    None => 0,
                };
                let number = block.number;
                let timestamp = block.timestamp;
                let ghost txs = block.txs@;
                let mut extracts = Extracts::new(c.host_chain_id, number, timestamp, c.ru_chain_id, ru_height);
                let events = extract_block(c, block);
                let mut evs = events;
                let ghost evs0 = evs@;
                let ghost start = extracts@;
                let m = evs.len();
                let mut k: usize = 0;
                while k < m
                    invariant
                        m == evs0.len(),
                        0 <= k <= m,
                        evs@ == evs0.subrange(k as int, m as int),
                        extracts@ == spec_ingest_all(
                            start,
                            evs0.subrange(0, k as int).map_values(|e: ExtractedEvent<Events>| ev_view(e)),
                        ),
                    decreases m - k,
                {
                    let e = evs.remove(0);
                    assert(e == evs0[k as int]);
                    extracts.ingest_event(e);
                    proof {
                        let pre = evs0.subrange(0, k + 1).map_values(|e: ExtractedEvent<Events>| ev_view(e));
                        assert(pre.drop_last() =~= evs0.subrange(0, k as int).map_values(
                            |e: ExtractedEvent<Events>| ev_view(e),
                        ));
                        assert(pre.last() == ev_view(e));
                    }
                    assert(evs@ =~= evs0.subrange(k + 1, m as int));
                    k = k + 1;
                }
                proof {
                    assert(evs0.subrange(0, m as int) =~= evs0);
                }
                out.push(extracts);
                proof {
                    assert(out@.map_values(|x: Extracts| x@) =~= before.map_values(|x: Extracts| x@).push(
                        extracts@,
                    ));
                }
            }
            assert(blocks@ =~= all.subrange(i + 1, n as int));
            i = i + 1;
        }
        assert(all.subrange(0, n as int) =~= all);
        out
    }
}

/// True if an extracted event is meant for the rollup of `c`: it names the
/// rollup chain, a token entry is of a host token, and a fill keeps only
/// outputs on the rollup chain.
pub open spec fn targets_rollup(c: SystemConstants, e: EventsView) -> bool {
    match e {
        EventsView::Enter(x) => names_chain(x.rollup_chain_id, c.ru_chain_id),
        EventsView::EnterToken(x) => names_chain(x.rollup_chain_id, c.ru_chain_id)
            && c.spec_is_host_token(x.token),
        EventsView::BlockSubmitted(x) => names_chain(x.rollup_chain_id, c.ru_chain_id),
        EventsView::Transact(x) => names_chain(x.rollup_chain_id, c.ru_chain_id),
        EventsView::Filled(outputs) => forall|i: int|
            0 <= i < outputs.len() ==> #[trigger] outputs[i].chain_id as u64 == c.ru_chain_id,
    }
}

/// Every event extracted from a log is meant for the rollup.
pub proof fn law_extracted_log_targets_rollup(c: SystemConstants, log: HostLog)
    ensures
        spec_extract_log(c, log) matches Some(e) ==> targets_rollup(c, e),
{
    if log.address != c.host_zenith && log.address == c.host_orders {
        if let Some(OrdersEvent::Filled(f)) = log.orders {
            let outs = outputs_on_chain(f.outputs@, c.ru_chain_id);
            assert forall|i: int| 0 <= i < outs.len() implies #[trigger] outs[i].chain_id as u64
                == c.ru_chain_id by {
                let p = |o: Output| o.chain_id as u64 == c.ru_chain_id;
                f.outputs@.lemma_filter_pred(p, i);
            }
        }
    }
}

/// Every event extracted from a transaction's logs is meant for the
/// rollup, and its log index lies within the receipt's logs.
pub proof fn law_tx_events_target_rollup(c: SystemConstants, tx_hash: B256, is_eip4844: bool, logs: Seq<HostLog>)
    ensures
        forall|i: int|
            0 <= i < spec_tx_events(c, tx_hash, is_eip4844, logs).len() ==> {
                let ev = #[trigger] spec_tx_events(c, tx_hash, is_eip4844, logs)[i];
                &&& targets_rollup(c, ev.event)
                &&& ev.tx_hash == tx_hash
                &&& ev.log_index < logs.len()
            },
    decreases logs.len(),
{
    if logs.len() > 0 {
        law_tx_events_target_rollup(c, tx_hash, is_eip4844, logs.drop_last());
        law_extracted_log_targets_rollup(c, logs.last());
    }
}

/// Every event extracted from a block is meant for the rollup.
pub proof fn law_block_events_target_rollup(c: SystemConstants, txs: Seq<HostTx>)
    ensures
        forall|i: int|
            0 <= i < spec_block_events(c, txs).len() ==> targets_rollup(
                c,
                #[trigger] spec_block_events(c, txs)[i].event,
            ),
    decreases txs.len(),
{
    if txs.len() > 0 {
        law_block_events_target_rollup(c, txs.drop_last());
        let last = txs.last();
        law_tx_events_target_rollup(c, last.hash, last.is_eip4844, last.logs@);
        let a = spec_block_events(c, txs.drop_last());
        let b = spec_tx_events(c, last.hash, last.is_eip4844, last.logs@);
        assert forall|i: int| 0 <= i < (a + b).len() implies targets_rollup(c, #[trigger] (a + b)[i].event) by {
            if i >= a.len() {
                assert((a + b)[i] == b[i - a.len()]);
            }
        }
    }
}

/// Each extracts of a chain stands for a host block above the deploy
/// height, at rollup height `host height - deploy height`, for the chain
/// ids of `c`.
pub proof fn law_extracts_heights(c: SystemConstants, blocks: Seq<HostBlock>)
    ensures
        forall|i: int|
            0 <= i < spec_extract_signet(c, blocks).len() ==> {
                let x = #[trigger] spec_extract_signet(c, blocks)[i];
                &&& x.host_block_number > c.host_deploy_height
                &&& x.ru_height + c.host_deploy_height == x.host_block_number
                &&& x.host_chain_id == c.host_chain_id
                &&& x.chain_id == c.ru_chain_id
            },
        spec_extract_signet(c, blocks).len() <= blocks.len(),
    decreases blocks.len(),
{
    if blocks.len() > 0 {
        law_extracts_heights(c, blocks.drop_last());
        let b = blocks.last();
        if b.number > c.host_deploy_height {
            lemma_ingest_all_keeps_header(
                spec_new_extracts(
                    c.host_chain_id,
                    b.number,
                    b.timestamp,
                    c.ru_chain_id,
                    (b.number - c.host_deploy_height) as u64,
                ),
                spec_block_events(c, b.txs@),
            );
        }
    }
}

/// Ingesting events keeps the chain ids, heights and host block.
pub proof fn lemma_ingest_all_keeps_header(x: ExtractsView, evs: Seq<ExtractedEventView>)
    ensures
        spec_ingest_all(x, evs).host_chain_id == x.host_chain_id,
        spec_ingest_all(x, evs).chain_id == x.chain_id,
        spec_ingest_all(x, evs).ru_height == x.ru_height,
        spec_ingest_all(x, evs).host_block_number == x.host_block_number,
        spec_ingest_all(x, evs).host_block_timestamp == x.host_block_timestamp,
    decreases evs.len(),
{
    if evs.len() > 0 {
        lemma_ingest_all_keeps_header(x, evs.drop_last());
    }
}

/// Every Signet event of a block is extracted: if the `k`-th log of the
/// `t`-th transaction yields an event, the block's events hold it, with
/// that transaction's hash and EIP-4844 flag and the log's index.
pub proof fn law_block_events_complete(c: SystemConstants, txs: Seq<HostTx>, t: int, k: int)
    requires
        0 <= t < txs.len(),
        0 <= k < txs[t].logs@.len(),
        spec_extract_log(c, txs[t].logs@[k]) is Some,
    ensures
        spec_block_events(c, txs).contains(
            (ExtractedEventView {
                tx_hash: txs[t].hash,
                is_eip4844: txs[t].is_eip4844,
                log_index: k as usize,
                event: spec_extract_log(c, txs[t].logs@[k])->Some_0,
            }),
        ),
    decreases txs.len(),
{
    let x = ExtractedEventView {
        tx_hash: txs[t].hash,
        is_eip4844: txs[t].is_eip4844,
        log_index: k as usize,
        event: spec_extract_log(c, txs[t].logs@[k])->Some_0,
    };
    let prev = spec_block_events(c, txs.drop_last());
    let last = txs.len() - 1;
    if t == last {
        lemma_tx_events_complete(c, txs[t].hash, txs[t].is_eip4844, txs[t].logs@, k);
        let m = spec_tx_events(c, txs.last().hash, txs.last().is_eip4844, txs.last().logs@);
        let j = choose|j: int| 0 <= j < m.len() && m[j] == x;
        assert((prev + m)[prev.len() + j] == x);
    } else {
        law_block_events_complete(c, txs.drop_last(), t, k);
        assert(txs.drop_last()[t] == txs[t]);
        let j = choose|j: int| 0 <= j < prev.len() && prev[j] == x;
        let m = spec_tx_events(c, txs.last().hash, txs.last().is_eip4844, txs.last().logs@);
        assert((prev + m)[j] == x);
    }
}

/// Every Signet event of a transaction's logs is extracted, at its log's
/// index.
proof fn lemma_tx_events_complete(c: SystemConstants, tx_hash: B256, is_eip4844: bool, logs: Seq<HostLog>, k: int)
    requires
        0 <= k < logs.len(),
        spec_extract_log(c, logs[k]) is Some,
    ensures
        spec_tx_events(c, tx_hash, is_eip4844, logs).contains(
            (ExtractedEventView {
                tx_hash,
                is_eip4844,
                log_index: k as usize,
                event: spec_extract_log(c, logs[k])->Some_0,
            }),
        ),
    decreases logs.len(),
{
    let x = ExtractedEventView {
        tx_hash,
        is_eip4844,
        log_index: k as usize,
        event: spec_extract_log(c, logs[k])->Some_0,
    };
    let prev = spec_tx_events(c, tx_hash, is_eip4844, logs.drop_last());
    if k == logs.len() - 1 {
        assert(logs.last() == logs[k]);
        assert(prev.push(x)[prev.len() as int] == x);
    } else {
        lemma_tx_events_complete(c, tx_hash, is_eip4844, logs.drop_last(), k);
        assert(logs.drop_last()[k] == logs[k]);
        let j = choose|j: int| 0 <= j < prev.len() && prev[j] == x;
        match spec_extract_log(c, logs.last()) {
            Some(e) => {
                let y = ExtractedEventView { tx_hash, is_eip4844, log_index: (logs.len() - 1) as usize, event: e };
                assert(prev.push(y)[j] == x);
            },
            None => {},
        }
    }
}

/// The host blocks of `blocks` above the deploy height of `c`, in order.
pub open spec fn blocks_above_deploy(c: SystemConstants, blocks: Seq<HostBlock>) -> Seq<HostBlock> {
    blocks.filter(|b: HostBlock| b.number > c.host_deploy_height)
}

/// Extraction maps every host block above the deploy height to exactly one
/// extracts, in order, whether or not the block holds Signet events: the
/// `i`-th extracts stands for the `i`-th such block, at rollup height
/// `host height - deploy height`, with that block's number and timestamp.
pub proof fn law_extract_signet_one_per_block(c: SystemConstants, blocks: Seq<HostBlock>)
    ensures
        spec_extract_signet(c, blocks).len() == blocks_above_deploy(c, blocks).len(),
        forall|i: int|
            0 <= i < spec_extract_signet(c, blocks).len() ==> {
                let x = #[trigger] spec_extract_signet(c, blocks)[i];
                let b = blocks_above_deploy(c, blocks)[i];
                &&& x.host_block_number == b.number
                &&& x.host_block_timestamp == b.timestamp
                &&& x.ru_height == b.number - c.host_deploy_height
                &&& x.host_chain_id == c.host_chain_id
                &&& x.chain_id == c.ru_chain_id
            },
    decreases blocks.len(),
{
    reveal_with_fuel(Seq::<_>::filter, 1);
    if blocks.len() > 0 {
        law_extract_signet_one_per_block(c, blocks.drop_last());
        let b = blocks.last();
        if b.number > c.host_deploy_height {
            lemma_ingest_all_keeps_header(
                spec_new_extracts(
                    c.host_chain_id,
                    b.number,
                    b.timestamp,
                    c.ru_chain_id,
                    (b.number - c.host_deploy_height) as u64,
                ),
                spec_block_events(c, b.txs@),
            );
        }
    }
}

} // verus!
