//! Decisions of the `eth` RPC namespace: gas normalization, call and
//! estimation responses, fee-history windows, log-range limits and
//! filter polling windows.
use vstd::prelude::*;
use crate::primitives::{two_128, Address, B256, U256};

verus! {

/// The least gas any transaction uses.
pub const MIN_TRANSACTION_GAS: u64 = 21000;

/// The gas of a call request after stateless normalization: below the
/// minimum transaction gas it is dropped, above `max_gas` it is capped,
/// otherwise kept.
pub open spec fn spec_normalize_gas(gas: Option<u64>, max_gas: u64) -> Option<u64> {
    match gas {
        Some(g) => if g < MIN_TRANSACTION_GAS {
            None
        } else if g > max_gas {
            Some(max_gas)
        } else {
            Some(g)
        },
        None => None,
    }
}

/// Normalizes a request's gas without reading state: gas below the minimum
/// transaction gas is dropped, gas above `max_gas` is capped at it.
pub fn normalize_gas_stateless(gas: &mut Option<u64>, max_gas: u64)
    ensures
        *final(gas) == spec_normalize_gas(*old(gas), max_gas),
{
    match *gas {
        Some(g) => {
            if g < MIN_TRANSACTION_GAS {
                *gas = None;
            } else if g > max_gas {
                *gas = Some(max_gas);
            }
        },
        None => {},
    }
}

/// The data attached to a call error.
#[derive(Debug, Clone, PartialEq, Eq)]
pub enum CallErrorData {
    /// Error output bytes, usually a revert message.
    Bytes(Vec<u8>),
    /// An error message.
    String(String),
}

/// An error answered to a call: its message and attached data.
#[derive(Debug, Clone, PartialEq, Eq)]
pub struct CallError {
    /// The message.
    pub message: String,
    /// The attached data.
    pub data: CallErrorData,
}

/// The result of executing a call.
#[derive(Debug, Clone, PartialEq, Eq)]
pub enum ExecutionOutcome {
    /// The call succeeded with this output.
    Success {
        /// The output.
        output: Vec<u8>,
    },
    /// The call reverted with this output.
    Revert {
        /// The revert output.
        output: Vec<u8>,
    },
    /// The call halted, for this reason (rendered).
    Halt {
        /// The rendered halt reason.
        reason: String,
    },
}

/// The answer to `eth_call` for an execution outcome: the output on
/// success; "execution reverted" with the output as data on revert;
/// "execution halted" with the reason on halt.
pub fn call_response(outcome: ExecutionOutcome) -> (r: Result<Vec<u8>, CallError>)
    ensures
        match outcome {
            ExecutionOutcome::Success { output } => r matches Ok(o) && o@ == output@,
            ExecutionOutcome::Revert { output } => r matches Err(e) && e.message@
                == "execution reverted"@ && (e.data matches CallErrorData::Bytes(b) && b@
                == output@),
            ExecutionOutcome::Halt { reason } => r matches Err(e) && e.message@
                == "execution halted"@ && (e.data matches CallErrorData::String(s) && s@
                == reason@),
        },
{
    match outcome {
        ExecutionOutcome::Success { output } => Ok(output),
        ExecutionOutcome::Revert { output } => Err(
            CallError {
                message: String::from_str("execution reverted"),
                data: CallErrorData::Bytes(output),
            },
        ),
        ExecutionOutcome::Halt { reason } => Err(
            CallError {
                message: String::from_str("execution halted"),
                data: CallErrorData::String(reason),
            },
        ),
    }
}

/// The result of estimating a call's gas.
#[derive(Debug, Clone, PartialEq, Eq)]
pub enum EstimationOutcome {
    /// The estimate.
    Success {
        /// The estimated gas.
        estimation: u64,
    },
    /// The call reverted with this output.
    Revert {
        /// The revert output.
        reason: Vec<u8>,
    },
    /// The call halted, for this reason (rendered).
    Halt {
        /// The rendered halt reason.
        reason: String,
    },
}

/// The answer to `eth_estimateGas` for an estimation outcome.
pub fn estimate_response(outcome: EstimationOutcome) -> (r: Result<u64, CallError>)
    ensures
        match outcome {
            EstimationOutcome::Success { estimation } => r == Ok::<u64, CallError>(estimation),
            EstimationOutcome::Revert { reason } => r matches Err(e) && e.message@
                == "execution reverted"@ && (e.data matches CallErrorData::Bytes(b) && b@
                == reason@),
            EstimationOutcome::Halt { reason } => r matches Err(e) && e.message@
                == "execution halted"@ && (e.data matches CallErrorData::String(s) && s@
                == reason@),
        },
{
    match outcome {
        EstimationOutcome::Success { estimation } => Ok(estimation),
        EstimationOutcome::Revert { reason } => Err(
            CallError {
                message: String::from_str("execution reverted"),
                data: CallErrorData::Bytes(reason),
            },
        ),
        EstimationOutcome::Halt { reason } => Err(
            CallError {
                message: String::from_str("execution halted"),
                data: CallErrorData::String(reason),
            },
        ),
    }
}

/// The error answered when the block configuration a call or an estimate
/// runs on cannot be loaded: an internal error with a fixed message,
/// carrying the cause's message.
pub fn block_cfg_error(cause: String) -> (r: CallError)
    ensures
        r.message@ == "error while loading block cfg"@,
        r.data == CallErrorData::String(cause),
{
    CallError { message: String::from_str("error while loading block cfg"), data: CallErrorData::String(cause) }
}

/// The answer to `eth_estimateGas`: the block configuration's load failing
/// with a cause gives [`block_cfg_error`] of it; otherwise the estimation's
/// outcome is answered as [`estimate_response`] says.
pub fn estimate_gas_answer(outcome: Result<EstimationOutcome, String>) -> (r: Result<u64, CallError>)
    ensures
        match outcome {
            Err(cause) => r matches Err(e) && e.message@ == "error while loading block cfg"@
                && e.data == CallErrorData::String(cause),
            Ok(EstimationOutcome::Success { estimation }) => r == Ok::<u64, CallError>(estimation),
            Ok(EstimationOutcome::Revert { reason }) => r matches Err(e) && e.message@
                == "execution reverted"@ && (e.data matches CallErrorData::Bytes(b) && b@ == reason@),
            Ok(EstimationOutcome::Halt { reason }) => r matches Err(e) && e.message@
                == "execution halted"@ && (e.data matches CallErrorData::String(h) && h@ == reason@),
        },
{
    match outcome {
        Err(cause) => Err(block_cfg_error(cause)),
        Ok(o) => estimate_response(o),
    }
}

/// The answer to `eth_call`: the block configuration's load failing with a
/// cause gives [`block_cfg_error`] of it; otherwise the execution's outcome
/// is answered as [`call_response`] says.
pub fn call_answer(outcome: Result<ExecutionOutcome, String>) -> (r: Result<Vec<u8>, CallError>)
    ensures
        match outcome {
            Err(cause) => r matches Err(e) && e.message@ == "error while loading block cfg"@
                && e.data == CallErrorData::String(cause),
            Ok(ExecutionOutcome::Success { output }) => r matches Ok(o) && o@ == output@,
            Ok(ExecutionOutcome::Revert { output }) => r matches Err(e) && e.message@
                == "execution reverted"@ && (e.data matches CallErrorData::Bytes(b) && b@ == output@),
            Ok(ExecutionOutcome::Halt { reason }) => r matches Err(e) && e.message@
                == "execution halted"@ && (e.data matches CallErrorData::String(h) && h@ == reason@),
        },
{
    match outcome {
        Err(cause) => Err(block_cfg_error(cause)),
        Ok(o) => call_response(o),
    }
}

/// The gas price answered to `eth_gasPrice`: the suggested tip plus the
/// latest base fee (zero when there is none).
pub fn gas_price(suggested_tip: U256, base_fee: Option<u64>) -> (r: U256)
    requires
        suggested_tip.value() + (match base_fee {
            Some(b) => b as nat,
            None => 0nat,
        }) < two_128() * two_128(),
    ensures
        r.value() == suggested_tip.value() + match base_fee {
            Some(b) => b as nat,
            None => 0nat,
        },
{
    let b = match base_fee {
        Some(b) => b,
        None => 0,
    };
    suggested_tip.add(&U256::from_u64(b))
}

/// The answer for a method that Signet does not support.
pub fn not_supported() -> (r: String)
    ensures
        r@ == "Method not supported. See signet documentation for a list of unsupported methods: https://docs.signet.sh/."@,
{
    String::from_str(
        "Method not supported. See signet documentation for a list of unsupported methods: https://docs.signet.sh/.",
    )
}

/// The transaction cache that raw transactions are forwarded to, or the
/// error message owed when none is configured.
pub fn require_tx_cache_for_send<T>(tx_cache: Option<T>) -> (r: Result<T, String>)
    ensures
        match tx_cache {
            Some(c) => r == Ok::<T, String>(c),
            None => r matches Err(m) && m@ == "tx-cache URL not provided"@,
        },
{
    match tx_cache {
        Some(c) => Ok(c),
        None => Err(String::from_str("tx-cache URL not provided")),
    }
}

/// Why a fee-history request is refused.
#[derive(Debug, Clone, Copy, PartialEq, Eq)]
pub enum FeeHistoryError {
    /// The history read does not cover the requested blocks.
    InvalidBlockRange,
}

/// How many blocks of fee history to serve: none for a request of zero;
/// else the request capped at the header history limit (without reward
/// percentiles) or the block history limit (with them), less one when the
/// newest block asked for is the pending one (served as the latest).
pub fn fee_history_block_count(
    block_count: u64,
    newest_is_pending: bool,
    has_percentiles: bool,
    max_header_history: u64,
    max_block_history: u64,
) -> (r: Option<u64>)
    ensures
        block_count == 0 ==> r is None,
        block_count > 0 ==> {
            let max = if has_percentiles { max_block_history } else { max_header_history };
            let capped = if block_count > max { max } else { block_count };
            r == Some(if newest_is_pending && capped > 0 { (capped - 1) as u64 } else { capped })
        },
{
    if block_count == 0 {
        return None;
    }
    let max = if has_percentiles { max_block_history } else { max_header_history };
    let mut count = block_count;
    if count > max {
        count = max;
    }
    if newest_is_pending {
        count = count.saturating_sub(1);
    }
    Some(count)
}

/// The blocks of a fee history ending at `end_block`: the count is capped
/// so as not to reach below genesis, and the range is the `count` blocks
/// up to and including `end_block`. Returns the oldest block and the
/// count.
pub fn fee_history_range(block_count: u64, end_block: u64) -> (r: (u64, u64))
    requires
        end_block < u64::MAX,
    ensures
        r.1 == (if end_block + 1 < block_count { end_block + 1 } else { block_count as int }),
        r.0 == end_block + 1 - r.1,
        r.0 <= end_block + 1,
{
    let end_block_plus = end_block + 1;
    let mut count = block_count;
    if end_block_plus < count {
        count = end_block_plus;
    }
    (end_block_plus - count, count)
}

/// Checks that a read of fee history covers exactly the requested blocks.
pub fn check_fee_history_len(len: usize, block_count: u64) -> (r: Result<(), FeeHistoryError>)
    ensures
        len == block_count <==> r is Ok,
        len != block_count ==> r == Err::<(), FeeHistoryError>(FeeHistoryError::InvalidBlockRange),
{
    if len as u64 != block_count || len as u128 != block_count as u128 {
        return Err(FeeHistoryError::InvalidBlockRange);
    }
    Ok(())
}

/// Why a log query is refused.
#[derive(Debug, Clone, Copy, PartialEq, Eq)]
pub enum EthFilterError {
    /// The range ends before it starts.
    InvalidBlockRangeParams,
    /// The range spans more blocks than allowed (the limit).
    QueryExceedsMaxBlocks(u64),
    /// The query matched more logs than allowed.
    QueryExceedsMaxResults {
        /// The limit on logs.
        max_logs: usize,
        /// The first block of the query.
        from_block: u64,
        /// The last block whose logs fit.
        to_block: u64,
    },
    /// No filter with this id is installed.
    FilterNotFound(u64),
}

/// Checks a log query's block range: it must not end before it starts, and
/// may span at most `max_blocks` blocks beyond its first.
pub fn check_block_range(from_block: u64, to_block: u64, max_blocks: u64) -> (r: Result<
    (),
    EthFilterError,
>)
    ensures
        to_block < from_block ==> r == Err::<(), EthFilterError>(
            EthFilterError::InvalidBlockRangeParams,
        ),
        to_block >= from_block && to_block - from_block > max_blocks ==> r == Err::<
            (),
            EthFilterError,
        >(EthFilterError::QueryExceedsMaxBlocks(max_blocks)),
        to_block >= from_block && to_block - from_block <= max_blocks ==> r is Ok,
{
    if to_block < from_block {
        return Err(EthFilterError::InvalidBlockRangeParams);
    }
    if to_block - from_block > max_blocks {
        return Err(EthFilterError::QueryExceedsMaxBlocks(max_blocks));
    }
    Ok(())
}

/// Checks the number of logs gathered so far, up to block `block_number`:
/// a query over more than one block may return at most `max_logs` logs; a
/// single-block query always returns all of its block's logs.
pub fn check_logs_limit(
    from_block: u64,
    to_block: u64,
    logs_len: usize,
    max_logs: usize,
    block_number: u64,
) -> (r: Result<(), EthFilterError>)
    ensures
        from_block != to_block && logs_len > max_logs ==> r == Err::<(), EthFilterError>(
            EthFilterError::QueryExceedsMaxResults {
                max_logs,
                from_block,
                to_block: if block_number > 0 { (block_number - 1) as u64 } else { 0 },
            },
        ),
        !(from_block != to_block && logs_len > max_logs) ==> r is Ok,
{
    if from_block != to_block && logs_len > max_logs {
        return Err(
            EthFilterError::QueryExceedsMaxResults {
                max_logs,
                from_block,
                to_block: block_number.saturating_sub(1),
            },
        );
    }
    Ok(())
}

/// Where the hash of the header at `idx` of a run of consecutive headers
/// comes from: the parent hash of the next header, or, for the last one,
/// a lookup by number.
pub fn header_hash_from_next(parent_hashes: &Vec<B256>, idx: usize) -> (r: Option<B256>)
    ensures
        idx + 1 < parent_hashes@.len() ==> r == Some(parent_hashes@[idx + 1]),
        idx + 1 >= parent_hashes@.len() ==> r is None,
{
    if idx < parent_hashes.len() && idx + 1 < parent_hashes.len() {
        Some(parent_hashes[idx + 1])
    } else {
        None
    }
}

/// The blocks a filter poll covers: from the filter's next start block to
/// the current tip, or nothing if the filter was polled past the tip.
pub fn filter_poll_window(next_start_block: u64, current_height: u64) -> (r: Option<(u64, u64)>)
    ensures
        next_start_block > current_height ==> r is None,
        next_start_block <= current_height ==> r == Some((next_start_block, current_height)),
{
    if next_start_block > current_height {
        return None;
    }
    Some((next_start_block, current_height))
}

/// The fields of a block header that call simulation adjusts.
#[derive(Debug, Clone, Copy, PartialEq, Eq)]
pub struct HeaderFields {
    /// The parent block's hash.
    pub parent_hash: B256,
    /// The block number.
    pub number: u64,
    /// The timestamp.
    pub timestamp: u64,
    /// The base fee per gas, if any.
    pub base_fee_per_gas: Option<u64>,
    /// The gas limit.
    pub gas_limit: u64,
}

/// The header that simulates the pending block on top of the latest one,
/// whose hash is `latest_hash`: one block higher, twelve seconds later,
/// with the next base fee and the RPC gas cap as gas limit.
pub fn pending_header(
    latest: HeaderFields,
    latest_hash: B256,
    next_base_fee: Option<u64>,
    rpc_gas_cap: u64,
) -> (r: HeaderFields)
    requires
        latest.number < u64::MAX,
        latest.timestamp + 12 <= u64::MAX,
    ensures
        r == (HeaderFields {
            parent_hash: latest_hash,
            number: (latest.number + 1) as u64,
            timestamp: (latest.timestamp + 12) as u64,
            base_fee_per_gas: next_base_fee,
            gas_limit: rpc_gas_cap,
        }),
{
    HeaderFields {
        parent_hash: latest_hash,
        number: latest.number + 1,
        timestamp: latest.timestamp + 12,
        base_fee_per_gas: next_base_fee,
        gas_limit: rpc_gas_cap,
    }
}

/// The effective gas price reported for a transaction: with a base fee,
/// the effective tip (truncated to 64 bits) plus the base fee; without
/// one, the maximum fee per gas (truncated to 64 bits).
pub fn effective_gas_price(effective_tip: Option<u128>, max_fee_per_gas: u128, base_fee: Option<u64>) -> (r: u128)
    requires
        base_fee matches Some(b) ==> (match effective_tip {
            Some(t) => t as u64,
            None => 0u64,
        }) + b <= u64::MAX,
    ensures
        match base_fee {
            Some(b) => r == (match effective_tip {
                Some(t) => t as u64,
                None => 0u64,
            }) + b,
            None => r == max_fee_per_gas as u64,
        },
{
    match base_fee {
        Some(b) => {
            let tip: u64 = match effective_tip {
                Some(t) => t as u64,
                None => 0,
            };
            (tip + b) as u128
        },
        None => (max_fee_per_gas as u64) as u128,
    }
}

/// A block of a log query's range: its number, whether its bloom admits
/// the filter, and, for such a block, its logs that match the filter.
#[derive(Debug, Clone, PartialEq, Eq)]
pub struct RangeBlock<L> {
    /// The block number.
    pub number: u64,
    /// True if the block's bloom admits the filter's addresses and topics.
    pub bloom_matches: bool,
    /// The block's matching logs, in order.
    pub logs: Vec<L>,
}

/// The logs a query over the blocks `blocks` (in order) returns: the
/// matching logs of the blocks whose bloom admits the filter, in order; a
/// query over more than one block fails as soon as the logs gathered pass
/// `max_logs`, naming the block before the one that passed it as the last
/// whose logs fit.
pub open spec fn spec_range_logs<L>(blocks: Seq<RangeBlock<L>>, from_block: u64, to_block: u64, max_logs: usize) -> Result<
    Seq<L>,
    EthFilterError,
>
    decreases blocks.len(),
{
    if blocks.len() == 0 {
        Ok(Seq::empty())
    } else {
        match spec_range_logs(blocks.drop_last(), from_block, to_block, max_logs) {
            Err(e) => Err(e),
            Ok(acc) => {
                let b = blocks.last();
                if !b.bloom_matches {
                    Ok(acc)
                } else {
                    let all = acc + b.logs@;
                    if from_block != to_block && all.len() > max_logs {
                        Err(
                            EthFilterError::QueryExceedsMaxResults {
                                max_logs,
                                from_block,
                                to_block: if b.number > 0 { (b.number - 1) as u64 } else { 0 },
                            },
                        )
                    } else {
                        Ok(all)
                    }
                }
            },
        }
    }
}

/// Once a run of blocks fails, any longer run fails the same way.
proof fn lemma_range_logs_err_sticks<L>(blocks: Seq<RangeBlock<L>>, i: int, from_block: u64, to_block: u64, max_logs: usize)
    requires
        0 <= i <= blocks.len(),
        spec_range_logs(blocks.take(i), from_block, to_block, max_logs) is Err,
    ensures
        spec_range_logs(blocks, from_block, to_block, max_logs) == spec_range_logs(blocks.take(i), from_block, to_block, max_logs),
    decreases blocks.len() - i,
{
    if i < blocks.len() {
        assert(blocks.take(i + 1).drop_last() =~= blocks.take(i));
        lemma_range_logs_err_sticks(blocks, i + 1, from_block, to_block, max_logs);
    } else {
        assert(blocks.take(i) =~= blocks);
    }
}

/// The logs of a query over the blocks `from_block..=to_block`, given the
/// blocks of the range in order (see [`RangeBlock`]): the range must not
/// end before it starts nor span more than `max_blocks` blocks past its
/// first; then the logs are gathered as [`spec_range_logs`] says.
pub fn get_logs_in_block_range<L>(
    from_block: u64,
    to_block: u64,
    max_blocks: u64,
    max_logs: usize,
    blocks: Vec<RangeBlock<L>>,
) -> (r: Result<Vec<L>, EthFilterError>)
    ensures
        to_block < from_block ==> r == Err::<Vec<L>, EthFilterError>(EthFilterError::InvalidBlockRangeParams),
        to_block >= from_block && to_block - from_block > max_blocks ==> r == Err::<Vec<L>, EthFilterError>(
            EthFilterError::QueryExceedsMaxBlocks(max_blocks),
        ),
        to_block >= from_block && to_block - from_block <= max_blocks ==> match spec_range_logs(
            blocks@,
            from_block,
            to_block,
            max_logs,
        ) {
            Ok(s) => r matches Ok(v) && v@ == s,
            Err(e) => r == Err::<Vec<L>, EthFilterError>(e),
        },
{
    match check_block_range(from_block, to_block, max_blocks) {
        Err(e) => return Err(e),
        Ok(_) => {},
    }
    let ghost all = blocks@;
    let mut rest = blocks;
    let mut out: Vec<L> = Vec::new();
    let mut failed: Option<EthFilterError> = None;
    let n = rest.len();
    let mut i: usize = 0;
    while i < n && failed.is_none()
        invariant
            n == all.len(),
            0 <= i <= n,
            rest@ == all.subrange(i as int, n as int),
            failed is None ==> spec_range_logs(all.take(i as int), from_block, to_block, max_logs) == Ok::<Seq<L>, EthFilterError>(out@),
            failed matches Some(e) ==> spec_range_logs(all, from_block, to_block, max_logs) == Err::<Seq<L>, EthFilterError>(e),
        decreases n - i,
    {
        let b = rest.remove(0);
        proof {
            assert(all.take(i + 1).drop_last() =~= all.take(i as int));
            assert(all.take(i + 1).last() == b);
        }
        let RangeBlock { number, bloom_matches, logs } = b;
        if bloom_matches {
            let ghost before = out@;
            let ghost added = logs@;
            let mut logs = logs;
            out.append(&mut logs);
            assert(out@ == before + added);
            match check_logs_limit(from_block, to_block, out.len(), max_logs, number) {
                Err(e) => {
                    proof {
                        assert(spec_range_logs(all.take(i + 1), from_block, to_block, max_logs) == Err::<Seq<L>, EthFilterError>(e));
                        lemma_range_logs_err_sticks(all, i + 1, from_block, to_block, max_logs);
                    }
                    failed = Some(e);
                },
                Ok(_) => {},
            }
        }
        i = i + 1;
    }
    match failed {
        Some(e) => Err(e),
        None => {
            proof {
                assert(all.take(n as int) =~= all);
            }
            Ok(out)
        },
    }
}

/// The fee fields of a fee history: the base fee of each block served,
/// followed by that of the next block; and a zero blob base fee for each
/// of those.
pub fn fee_history_base_fees(base_fees: &Vec<u64>, next_base_fee: u64) -> (r: (Vec<u128>, Vec<u128>))
    requires
        base_fees@.len() < usize::MAX,
    ensures
        r.0@.len() == base_fees@.len() + 1,
        forall|i: int| 0 <= i < base_fees@.len() ==> r.0@[i] == base_fees@[i],
        r.0@[base_fees@.len() as int] == next_base_fee,
        r.1@.len() == r.0@.len(),
        forall|i: int| 0 <= i < r.1@.len() ==> r.1@[i] == 0,
{
    let mut fees: Vec<u128> = Vec::new();
    let mut blob: Vec<u128> = Vec::new();
    let mut i: usize = 0;
    while i < base_fees.len()
        invariant
            0 <= i <= base_fees@.len(),
            fees@.len() == i,
            blob@.len() == i,
            forall|k: int| 0 <= k < i ==> fees@[k] == base_fees@[k],
            forall|k: int| 0 <= k < i ==> blob@[k] == 0,
        decreases base_fees@.len() - i,
    {
        fees.push(base_fees[i] as u128);
        blob.push(0);
        i = i + 1;
    }
    fees.push(next_base_fee as u128);
    blob.push(0);
    (fees, blob)
}

/// The sender of a transaction served by the RPC: the sender a magic
/// signature names, else the signer recovered from the signature; with
/// neither, the signature is invalid.
pub fn rpc_tx_sender(magic_sender: Option<Address>, recovered_signer: Option<Address>) -> (r: Option<Address>)
    ensures
        r == match magic_sender {
            Some(a) => Some(a),
            None => recovered_signer,
        },
{
    match magic_sender {
        Some(a) => Some(a),
        None => recovered_signer,
    }
}

/// A query over a single block never fails for the number of its logs: it
/// returns all of the block's matching logs.
pub proof fn law_single_block_query_returns_all<L>(blocks: Seq<RangeBlock<L>>, block: u64, max_logs: usize)
    ensures
        spec_range_logs(blocks, block, block, max_logs) is Ok,
    decreases blocks.len(),
{
    if blocks.len() > 0 {
        law_single_block_query_returns_all(blocks.drop_last(), block, max_logs);
    }
}

} // verus!
