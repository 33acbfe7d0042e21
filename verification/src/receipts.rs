//! RPC receipts of rollup transactions: gas used, block-wide log indices,
//! the created contract's address and the receipt envelope.
use vstd::prelude::*;
use crate::hash::keccak256_digest;
use crate::primitives::{Address, B256};

verus! {

/// The big-endian bytes of `n`, without leading zeros (one byte for a
/// number below 256).
pub open spec fn be_trimmed(n: u64) -> Seq<u8>
    decreases n,
{
    if n < 256 {
        seq![n as u8]
    } else {
        be_trimmed(n / 256) + seq![(n % 256) as u8]
    }
}

/// The RLP encoding of a number: `0x80` for zero, the byte itself below
/// `0x80`, else `0x80` plus the length, then the big-endian bytes without
/// leading zeros.
pub open spec fn rlp_u64(n: u64) -> Seq<u8> {
    if n == 0 {
        seq![0x80u8]
    } else if n < 0x80 {
        seq![n as u8]
    } else {
        seq![(0x80 + be_trimmed(n).len()) as u8] + be_trimmed(n)
    }
}

/// The RLP encoding of the list `[sender, nonce]` for a 20-byte sender: the
/// list header, the sender as a 20-byte string, then the nonce.
pub open spec fn create_preimage(sender: Seq<u8>, nonce: u64) -> Seq<u8> {
    seq![(0xc0 + 21 + rlp_u64(nonce).len()) as u8, 0x94u8] + sender + rlp_u64(nonce)
}

/// The address of the contract that `sender` creates with `nonce`: the last
/// 20 bytes of the Keccak-256 digest of the RLP list `[sender, nonce]`.
pub open spec fn create_address_of(sender: Seq<u8>, nonce: u64) -> Seq<u8> {
    keccak256_digest(create_preimage(sender, nonce)).subrange(12, 32)
}

/// Calls `alloy::primitives::Address::create`, which hashes the RLP list
/// `[sender, nonce]` with `alloy::primitives::keccak256` and keeps the last
/// 20 bytes of the digest; the contract says so, over the name of that
/// digest.
#[verifier::external_body]
fn create_address(sender: &Address, nonce: u64) -> (r: Address)
    ensures
        r@ == create_address_of(sender@, nonce),
{
    alloy::primitives::Address::from(*sender).create(nonce).0.0
}

/// The transaction types of the rollup.
#[derive(Debug, Clone, Copy, PartialEq, Eq, Structural)]
pub enum TxType {
    /// A legacy transaction.
    Legacy,
    /// An access-list transaction.
    Eip2930,
    /// A dynamic-fee transaction.
    Eip1559,
    /// A blob transaction.
    Eip4844,
    /// A set-code transaction.
    Eip7702,
}

/// A receipt wrapped by the type of its transaction.
#[derive(Debug, Clone, PartialEq, Eq)]
pub enum ReceiptEnvelope<R> {
    /// Of a legacy transaction.
    Legacy(R),
    /// Of an access-list transaction.
    Eip2930(R),
    /// Of a dynamic-fee transaction.
    Eip1559(R),
    /// Of a blob transaction.
    Eip4844(R),
    /// Of a set-code transaction.
    Eip7702(R),
}

/// The envelope of `receipt` for a transaction of type `tx_type`.
pub open spec fn spec_envelope<R>(receipt: R, tx_type: TxType) -> ReceiptEnvelope<R> {
    match tx_type {
        TxType::Legacy => ReceiptEnvelope::Legacy(receipt),
        TxType::Eip2930 => ReceiptEnvelope::Eip2930(receipt),
        TxType::Eip1559 => ReceiptEnvelope::Eip1559(receipt),
        TxType::Eip4844 => ReceiptEnvelope::Eip4844(receipt),
        TxType::Eip7702 => ReceiptEnvelope::Eip7702(receipt),
    }
}

/// The receipt inside an envelope.
pub open spec fn envelope_receipt<R>(e: ReceiptEnvelope<R>) -> R {
    match e {
        ReceiptEnvelope::Legacy(r) => r,
        ReceiptEnvelope::Eip2930(r) => r,
        ReceiptEnvelope::Eip1559(r) => r,
        ReceiptEnvelope::Eip4844(r) => r,
        ReceiptEnvelope::Eip7702(r) => r,
    }
}

/// Wraps a receipt in the envelope of its transaction type.
pub fn build_envelope<R>(receipt: R, tx_type: TxType) -> (r: ReceiptEnvelope<R>)
    ensures
        r == spec_envelope(receipt, tx_type),
{
    match tx_type {
        TxType::Legacy => ReceiptEnvelope::Legacy(receipt),
        TxType::Eip2930 => ReceiptEnvelope::Eip2930(receipt),
        TxType::Eip1559 => ReceiptEnvelope::Eip1559(receipt),
        TxType::Eip4844 => ReceiptEnvelope::Eip4844(receipt),
        TxType::Eip7702 => ReceiptEnvelope::Eip7702(receipt),
    }
}

/// Whether a transaction creates a contract or calls an address.
#[derive(Debug, Clone, Copy, PartialEq, Eq)]
pub enum TxKind {
    /// Contract creation.
    Create,
    /// A call of the address.
    Call(Address),
}

/// Where a transaction stands in the chain.
#[derive(Debug, Clone, Copy, PartialEq, Eq)]
pub struct TransactionMeta {
    /// The transaction hash.
    pub tx_hash: B256,
    /// The index of the transaction in its block.
    pub index: u64,
    /// The block hash.
    pub block_hash: B256,
    /// The block number.
    pub block_number: u64,
    /// The block's base fee, if any.
    pub base_fee: Option<u64>,
    /// The block timestamp.
    pub timestamp: u64,
}

/// What a receipt needs of its transaction: its type and kind, its nonce,
/// its effective gas price, and its sender as recovered from the signature
/// or, failing that, as read from a magic signature.
#[derive(Debug, Clone, Copy, PartialEq, Eq)]
pub struct ReceiptTx {
    /// The transaction type.
    pub tx_type: TxType,
    /// Creation or call.
    pub kind: TxKind,
    /// The sender's nonce.
    pub nonce: u64,
    /// The price per gas paid, given the block's base fee.
    pub effective_gas_price: u128,
    /// The signer recovered from the signature, if recovery succeeded.
    pub recovered_signer: Option<Address>,
    /// The sender a magic signature names, if the signature is one.
    pub magic_sender: Option<Address>,
}

/// A stored receipt: its outcome, the block's gas used up to and
/// including its transaction, and its logs.
#[derive(Debug, Clone, PartialEq, Eq)]
pub struct Receipt<L> {
    /// True if the transaction succeeded.
    pub success: bool,
    /// The cumulative gas used in the block.
    pub cumulative_gas_used: u64,
    /// The logs emitted.
    pub logs: Vec<L>,
}

/// A log as the RPC serves it: the log with its place in the chain.
#[derive(Debug, Clone, PartialEq, Eq)]
pub struct RpcLog<L> {
    /// The log.
    pub inner: L,
    /// The block hash.
    pub block_hash: B256,
    /// The block number.
    pub block_number: u64,
    /// The block timestamp.
    pub block_timestamp: u64,
    /// The transaction hash.
    pub transaction_hash: B256,
    /// The transaction index.
    pub transaction_index: u64,
    /// The log index.
    pub log_index: u64,
    /// True if the log was removed by a reorg.
    pub removed: bool,
}

/// The receipt part of an RPC receipt.
#[derive(Debug, Clone, PartialEq, Eq)]
pub struct RpcReceipt<L> {
    /// True if the transaction succeeded.
    pub status: bool,
    /// The cumulative gas used in the block.
    pub cumulative_gas_used: u64,
    /// The logs, placed in the chain.
    pub logs: Vec<RpcLog<L>>,
    /// The receipt's logs bloom.
    pub logs_bloom: Vec<u8>,
}

/// A transaction receipt as the RPC serves it.
#[derive(Debug, Clone, PartialEq, Eq)]
pub struct TransactionReceipt<L> {
    /// The receipt in its envelope.
    pub inner: ReceiptEnvelope<RpcReceipt<L>>,
    /// The transaction hash.
    pub transaction_hash: B256,
    /// The transaction index.
    pub transaction_index: Option<u64>,
    /// The block hash.
    pub block_hash: Option<B256>,
    /// The block number.
    pub block_number: Option<u64>,
    /// The sender.
    pub from: Address,
    /// The callee, for a call.
    pub to: Option<Address>,
    /// The gas this transaction used.
    pub gas_used: u64,
    /// The created contract, for a creation.
    pub contract_address: Option<Address>,
    /// The effective gas price.
    pub effective_gas_price: u128,
    /// The blob gas price; the rollup has no blobs, so always `None`.
    pub blob_gas_price: Option<u128>,
    /// The blob gas used; always `None`.
    pub blob_gas_used: Option<u64>,
}

/// Why a receipt cannot be built.
#[derive(Debug, Clone, Copy, PartialEq, Eq, Structural)]
pub enum ReceiptError {
    /// The signature yields no sender.
    InvalidTransactionSignature,
}

/// The sender of a transaction: the recovered signer, else the sender named
/// by a magic signature.
pub open spec fn spec_sender(tx: ReceiptTx) -> Option<Address> {
    match tx.recovered_signer {
        Some(a) => Some(a),
        None => tx.magic_sender,
    }
}

/// The sender of a transaction, or an error if neither the signature nor a
/// magic signature yields one.
pub fn resolve_sender(tx: &ReceiptTx) -> (r: Result<Address, ReceiptError>)
    ensures
        match spec_sender(*tx) {
            Some(a) => r == Ok::<Address, ReceiptError>(a),
            None => r == Err::<Address, ReceiptError>(ReceiptError::InvalidTransactionSignature),
        },
{
    match tx.recovered_signer {
        Some(a) => Ok(a),
        None => match tx.magic_sender {
            Some(a) => Ok(a),
            None => Err(ReceiptError::InvalidTransactionSignature),
        },
    }
}

/// The gas used by the transaction at `index`: its cumulative gas less that
/// of the transaction before it; the whole cumulative gas for the first;
/// zero when the one before is not among `all_receipts`.
pub open spec fn spec_gas_used<L>(index: u64, cumulative: u64, all_receipts: Seq<Receipt<L>>) -> u64 {
    if index == 0 {
        cumulative
    } else if index - 1 < all_receipts.len() {
        (cumulative - all_receipts[index - 1].cumulative_gas_used) as u64
    } else {
        0
    }
}

/// True if the transaction before `index`, where known, used no more
/// cumulative gas than `cumulative`.
pub open spec fn gas_ordered<L>(index: u64, cumulative: u64, all_receipts: Seq<Receipt<L>>) -> bool {
    index > 0 && index - 1 < all_receipts.len() ==> all_receipts[index - 1].cumulative_gas_used
        <= cumulative
}

/// The gas used by the transaction at `index` whose cumulative gas is
/// `cumulative`.
pub fn receipt_gas_used<L>(index: u64, cumulative: u64, all_receipts: &[Receipt<L>]) -> (r: u64)
    requires
        gas_ordered(index, cumulative, all_receipts@),
    ensures
        r == spec_gas_used(index, cumulative, all_receipts@),
{
    if index == 0 {
        cumulative
    } else {
        let prev = index - 1;
        if prev < all_receipts.len() as u64 {
            cumulative - all_receipts[prev as usize].cumulative_gas_used
        } else {
            0
        }
    }
}

/// The number of logs of all the receipts in `rs`.
pub open spec fn log_count_sum<L>(rs: Seq<Receipt<L>>) -> nat
    decreases rs.len(),
{
    if rs.len() == 0 {
        0
    } else {
        log_count_sum(rs.drop_last()) + rs.last().logs@.len()
    }
}

/// The receipts before the transaction at `index`, as far as they are
/// known.
pub open spec fn receipts_before<L>(rs: Seq<Receipt<L>>, index: u64) -> Seq<Receipt<L>> {
    if index < rs.len() {
        rs.take(index as int)
    } else {
        rs
    }
}

/// Counting the logs of a longer prefix gives no fewer.
proof fn lemma_log_count_monotone<L>(rs: Seq<Receipt<L>>, i: int, j: int)
    requires
        0 <= i <= j <= rs.len(),
    ensures
        log_count_sum(rs.take(i)) <= log_count_sum(rs.take(j)),
    decreases j - i,
{
    if i < j {
        assert(rs.take(j).drop_last() =~= rs.take(j - 1));
        lemma_log_count_monotone(rs, i, j - 1);
    }
}

/// The block-wide index of the first log of the transaction at `index`: the
/// number of logs of the receipts before it.
pub fn log_index_offset<L>(all_receipts: &[Receipt<L>], index: u64) -> (r: u64)
    requires
        log_count_sum(receipts_before(all_receipts@, index)) <= u64::MAX,
    ensures
        r == log_count_sum(receipts_before(all_receipts@, index)),
{
    let n: usize = if index < all_receipts.len() as u64 {
        index as usize
    } else {
        all_receipts.len()
    };
    proof {
        assert(receipts_before(all_receipts@, index) =~= all_receipts@.take(n as int));
    }
    let mut num_logs: u64 = 0;
    let mut i: usize = 0;
    while i < n
        invariant
            n <= all_receipts@.len(),
            0 <= i <= n,
            num_logs == log_count_sum(all_receipts@.take(i as int)),
            log_count_sum(all_receipts@.take(n as int)) <= u64::MAX,
        decreases n - i,
    {
        proof {
            assert(all_receipts@.take(i + 1).drop_last() =~= all_receipts@.take(i as int));
            lemma_log_count_monotone(all_receipts@, i + 1, n as int);
        }
        num_logs = num_logs + all_receipts[i].logs.len() as u64;
        i = i + 1;
    }
    num_logs
}

/// The RPC log for the `i`-th log of the transaction described by `meta`,
/// whose first log has block-wide index `offset`.
pub open spec fn spec_rpc_log<L>(log: L, meta: TransactionMeta, offset: u64, i: int) -> RpcLog<L> {
    RpcLog {
        inner: log,
        block_hash: meta.block_hash,
        block_number: meta.block_number,
        block_timestamp: meta.timestamp,
        transaction_hash: meta.tx_hash,
        transaction_index: meta.index,
        log_index: (offset + i) as u64,
        removed: false,
    }
}

/// Places the logs of one receipt in the chain, numbering them from
/// `offset`.
pub fn place_logs<L>(logs: Vec<L>, meta: &TransactionMeta, offset: u64) -> (r: Vec<RpcLog<L>>)
    requires
        offset + logs@.len() <= u64::MAX,
    ensures
        r@.len() == logs@.len(),
        forall|i: int| 0 <= i < logs@.len() ==> r@[i] == spec_rpc_log(logs@[i], *meta, offset, i),
{
    let ghost all = logs@;
    let mut rest = logs;
    let mut out: Vec<RpcLog<L>> = Vec::new();
    let n = rest.len();
    let mut i: usize = 0;
    while i < n
        invariant
            n == all.len(),
            0 <= i <= n,
            offset + n <= u64::MAX,
            rest@ == all.subrange(i as int, n as int),
            out@.len() == i,
            forall|k: int| 0 <= k < i ==> out@[k] == spec_rpc_log(all[k], *meta, offset, k),
        decreases n - i,
    {
        let log = rest.remove(0);
        assert(log == all[i as int]);
        out.push(
            RpcLog {
                inner: log,
                block_hash: meta.block_hash,
                block_number: meta.block_number,
                block_timestamp: meta.timestamp,
                transaction_hash: meta.tx_hash,
                transaction_index: meta.index,
                log_index: offset + i as u64,
                removed: false,
            },
        );
        i = i + 1;
    }
    out
}

/// What the receipt of `tx` says of its sender, callee and created
/// contract, given the sender.
pub open spec fn spec_to(tx: ReceiptTx) -> Option<Address> {
    match tx.kind {
        TxKind::Create => None,
        TxKind::Call(a) => Some(a),
    }
}

/// True if the RPC receipt `r` is the one built for `tx` at `meta` from a
/// stored receipt with outcome `success`, cumulative gas `cumulative` and
/// logs `logs`, with bloom `bloom`, when the sender is `from`, the gas used
/// `gas_used` and the block-wide index of the first log `offset`.
pub open spec fn is_receipt_with<L>(
    r: TransactionReceipt<L>,
    tx: ReceiptTx,
    meta: TransactionMeta,
    success: bool,
    cumulative: u64,
    logs: Seq<L>,
    bloom: Seq<u8>,
    from: Address,
    gas_used: u64,
    offset: u64,
) -> bool {
    let inner = envelope_receipt(r.inner);
    &&& r.inner == spec_envelope(inner, tx.tx_type)
    &&& inner.status == success
    &&& inner.cumulative_gas_used == cumulative
    &&& inner.logs_bloom@ == bloom
    &&& inner.logs@.len() == logs.len()
    &&& forall|i: int|
        0 <= i < logs.len() ==> inner.logs@[i] == spec_rpc_log(logs[i], meta, offset, i)
    &&& r.transaction_hash == meta.tx_hash
    &&& r.transaction_index == Some(meta.index)
    &&& r.block_hash == Some(meta.block_hash)
    &&& r.block_number == Some(meta.block_number)
    &&& r.from == from
    &&& r.to == spec_to(tx)
    &&& r.gas_used == gas_used
    &&& match r.contract_address {
        Some(a) => tx.kind is Create && a@ == create_address_of(from@, tx.nonce),
        None => tx.kind is Call,
    }
    &&& r.effective_gas_price == tx.effective_gas_price
    &&& r.blob_gas_price is None
    &&& r.blob_gas_used is None
}

/// True if the RPC receipt `r` is the one built for `tx` at `meta`, from a
/// stored receipt with outcome `success`, cumulative gas `cumulative` and
/// logs `logs`, with bloom `bloom`, among the block's receipts
/// `all_receipts`, when the sender is `from`.
pub open spec fn is_signet_receipt<L>(
    r: TransactionReceipt<L>,
    tx: ReceiptTx,
    meta: TransactionMeta,
    success: bool,
    cumulative: u64,
    logs: Seq<L>,
    bloom: Seq<u8>,
    all_receipts: Seq<Receipt<L>>,
    from: Address,
) -> bool {
    is_receipt_with(
        r,
        tx,
        meta,
        success,
        cumulative,
        logs,
        bloom,
        from,
        spec_gas_used(meta.index, cumulative, all_receipts),
        log_count_sum(receipts_before(all_receipts, meta.index)) as u64,
    )
}

/// Assembles the RPC receipt from its parts.
fn assemble_receipt<L>(
    tx: &ReceiptTx,
    meta: TransactionMeta,
    from: Address,
    receipt: Receipt<L>,
    logs_bloom: Vec<u8>,
    gas_used: u64,
    offset: u64,
) -> (r: TransactionReceipt<L>)
    requires
        offset + receipt.logs@.len() <= u64::MAX,
    ensures
        is_receipt_with(
            r,
            *tx,
            meta,
            receipt.success,
            receipt.cumulative_gas_used,
            receipt.logs@,
            logs_bloom@,
            from,
            gas_used,
            offset,
        ),
{
    let Receipt { success, cumulative_gas_used, logs } = receipt;
    let placed = place_logs(logs, &meta, offset);
    let rpc_receipt = RpcReceipt { status: success, cumulative_gas_used, logs: placed, logs_bloom };
    let (contract_address, to) = match tx.kind {
        TxKind::Create => (Some(create_address(&from, tx.nonce)), None),
        TxKind::Call(addr) => (None, Some(addr)),
    };
    TransactionReceipt {
        inner: build_envelope(rpc_receipt, tx.tx_type),
        transaction_hash: meta.tx_hash,
        transaction_index: Some(meta.index),
        block_hash: Some(meta.block_hash),
        block_number: Some(meta.block_number),
        from,
        to,
        gas_used,
        contract_address,
        effective_gas_price: tx.effective_gas_price,
        blob_gas_price: None,
        blob_gas_used: None,
    }
}

/// Builds the RPC receipt of `tx` at `meta` from its stored receipt, among
/// the block's receipts `all_receipts`, with the receipt's logs bloom
/// `logs_bloom`. The sender is the recovered signer, else the sender a
/// magic signature names; with neither, the signature is invalid. The gas
/// used is the cumulative gas less that of the transaction before; log
/// indices run on from the logs of the receipts before; a creation reports
/// the created contract's address, a call its callee.
pub fn build_signet_receipt<L>(
    tx: &ReceiptTx,
    meta: TransactionMeta,
    receipt: Receipt<L>,
    all_receipts: &[Receipt<L>],
    logs_bloom: Vec<u8>,
) -> (r: Result<TransactionReceipt<L>, ReceiptError>)
    requires
        gas_ordered(meta.index, receipt.cumulative_gas_used, all_receipts@),
        log_count_sum(receipts_before(all_receipts@, meta.index)) + receipt.logs@.len() <= u64::MAX,
    ensures
        spec_sender(*tx) is None <==> r is Err,
        r is Err ==> r == Err::<TransactionReceipt<L>, ReceiptError>(
            ReceiptError::InvalidTransactionSignature,
        ),
        r matches Ok(rc) ==> is_signet_receipt(
            rc,
            *tx,
            meta,
            receipt.success,
            receipt.cumulative_gas_used,
            receipt.logs@,
            logs_bloom@,
            all_receipts@,
            spec_sender(*tx)->Some_0,
        ),
{
    let from = match resolve_sender(tx) {
        Ok(a) => a,
        Err(e) => return Err(e),
    };
    let gas_used = receipt_gas_used(meta.index, receipt.cumulative_gas_used, all_receipts);
    let offset = log_index_offset(all_receipts, meta.index);
    Ok(assemble_receipt(tx, meta, from, receipt, logs_bloom, gas_used, offset))
}

/// The place in the chain of the `i`-th transaction (hash `tx_hash`) of a
/// block.
pub open spec fn spec_block_meta(
    tx_hash: B256,
    i: int,
    block_hash: B256,
    block_number: u64,
    base_fee: Option<u64>,
    timestamp: u64,
) -> TransactionMeta {
    TransactionMeta { tx_hash, index: i as u64, block_hash, block_number, base_fee, timestamp }
}

/// True if each receipt's cumulative gas is at least the one before.
pub open spec fn gas_monotone<L>(rs: Seq<Receipt<L>>) -> bool {
    forall|i: int| 0 < i < rs.len() ==> #[trigger] rs[i].cumulative_gas_used >= rs[i - 1].cumulative_gas_used
}

/// The logs before a receipt, with its own, are among the logs of the
/// first `n` receipts, when it is one of them.
proof fn lemma_offset_fits_prefix<L>(rs: Seq<Receipt<L>>, i: int, n: int)
    requires
        0 <= i < n <= rs.len(),
        rs.len() <= u64::MAX,
    ensures
        log_count_sum(receipts_before(rs, i as u64)) + rs[i].logs@.len() <= log_count_sum(rs.take(n)),
{
    assert(receipts_before(rs, i as u64) =~= rs.take(i));
    assert(rs.take(i + 1).drop_last() =~= rs.take(i));
    lemma_log_count_monotone(rs, i + 1, n);
}

/// The RPC receipts of a block: its transactions (hash and what the
/// receipt needs of each), paired in order with its stored receipts and
/// their blooms, up to the shorter of the two lists. Fails if any
/// transaction yields no sender.
pub fn block_receipts<L>(
    txs: Vec<(B256, ReceiptTx)>,
    receipts: Vec<Receipt<L>>,
    blooms: Vec<Vec<u8>>,
    block_hash: B256,
    block_number: u64,
    base_fee: Option<u64>,
    timestamp: u64,
) -> (r: Result<Vec<TransactionReceipt<L>>, ReceiptError>)
    requires
        ({
            let n = if txs@.len() < receipts@.len() { txs@.len() } else { receipts@.len() };
            &&& blooms@.len() >= n
            &&& receipts@.len() <= u64::MAX
            &&& gas_monotone(receipts@.take(n as int))
            &&& log_count_sum(receipts@.take(n as int)) <= u64::MAX
        }),
    ensures
        ({
            let n = if txs@.len() < receipts@.len() { txs@.len() } else { receipts@.len() };
            &&& r is Err <==> exists|i: int| 0 <= i < n && spec_sender(#[trigger] txs@[i].1) is None
            &&& r is Err ==> r == Err::<Vec<TransactionReceipt<L>>, ReceiptError>(
                ReceiptError::InvalidTransactionSignature,
            )
            &&& r matches Ok(v) ==> v@.len() == n && forall|i: int|
                0 <= i < n ==> is_signet_receipt(
                    #[trigger] v@[i],
                    txs@[i].1,
                    spec_block_meta(txs@[i].0, i, block_hash, block_number, base_fee, timestamp),
                    receipts@[i].success,
                    receipts@[i].cumulative_gas_used,
                    receipts@[i].logs@,
                    blooms@[i]@,
                    receipts@,
                    spec_sender(txs@[i].1)->Some_0,
                )
        }),
{
    let ghost all_txs = txs@;
    let ghost all_receipts = receipts@;
    let ghost all_blooms = blooms@;
    let n: usize = if txs.len() < receipts.len() { txs.len() } else { receipts.len() };
    let mut gas: Vec<u64> = Vec::new();
    let mut offsets: Vec<u64> = Vec::new();
    let mut i: usize = 0;
    while i < n
        invariant
            n <= txs@.len(),
            n <= receipts@.len(),
            receipts@.len() <= u64::MAX,
            gas_monotone(receipts@.take(n as int)),
            log_count_sum(receipts@.take(n as int)) <= u64::MAX,
            0 <= i <= n,
            gas@.len() == i,
            offsets@.len() == i,
            forall|k: int| 0 <= k < i ==> #[trigger] gas@[k] == spec_gas_used(k as u64, receipts@[k].cumulative_gas_used, receipts@),
            forall|k: int| 0 <= k < i ==> #[trigger] offsets@[k] == log_count_sum(receipts_before(receipts@, k as u64)),
            all_txs == txs@,
            all_receipts == receipts@,
            forall|k: int| 0 <= k < i ==> spec_sender(#[trigger] all_txs[k].1) is Some,
        decreases n - i,
    {
        if resolve_sender(&txs[i].1).is_err() {
            assert(spec_sender(all_txs[i as int].1) is None);
            return Err(ReceiptError::InvalidTransactionSignature);
        }
        proof {
            lemma_offset_fits_prefix(receipts@, i as int, n as int);
            if i > 0 {
                assert(receipts@.take(n as int)[i as int] == receipts@[i as int]);
                assert(receipts@.take(n as int)[i - 1] == receipts@[i - 1]);
                assert(receipts@[i as int].cumulative_gas_used >= receipts@[i - 1].cumulative_gas_used);
            }
        }
        let g = receipt_gas_used(i as u64, receipts[i].cumulative_gas_used, receipts.as_slice());
        let o = log_index_offset(receipts.as_slice(), i as u64);
        gas.push(g);
        offsets.push(o);
        i = i + 1;
    }
    let mut rest_txs = txs;
    let mut rest_receipts = receipts;
    let mut rest_blooms = blooms;
    let mut out: Vec<TransactionReceipt<L>> = Vec::new();
    let mut j: usize = 0;
    while j < n
        invariant
            n <= all_txs.len(),
            n <= all_receipts.len(),
            all_blooms.len() >= n,
            all_receipts.len() <= u64::MAX,
            log_count_sum(all_receipts.take(n as int)) <= u64::MAX,
            0 <= j <= n,
            gas@.len() == n,
            offsets@.len() == n,
            forall|k: int| 0 <= k < n ==> #[trigger] gas@[k] == spec_gas_used(k as u64, all_receipts[k].cumulative_gas_used, all_receipts),
            forall|k: int| 0 <= k < n ==> #[trigger] offsets@[k] == log_count_sum(receipts_before(all_receipts, k as u64)),
            rest_txs@ == all_txs.subrange(j as int, all_txs.len() as int),
            rest_receipts@ == all_receipts.subrange(j as int, all_receipts.len() as int),
            rest_blooms@ == all_blooms.subrange(j as int, all_blooms.len() as int),
            forall|k: int| 0 <= k < n ==> spec_sender(#[trigger] all_txs[k].1) is Some,
            out@.len() == j,
            forall|k: int|
                0 <= k < j ==> is_signet_receipt(
                    #[trigger] out@[k],
                    all_txs[k].1,
                    spec_block_meta(all_txs[k].0, k, block_hash, block_number, base_fee, timestamp),
                    all_receipts[k].success,
                    all_receipts[k].cumulative_gas_used,
                    all_receipts[k].logs@,
                    all_blooms[k]@,
                    all_receipts,
                    spec_sender(all_txs[k].1)->Some_0,
                ),
        decreases n - j,
    {
        let (tx_hash, tx) = rest_txs.remove(0);
        let receipt = rest_receipts.remove(0);
        let bloom = rest_blooms.remove(0);
        assert(receipt == all_receipts[j as int]);
        assert((tx_hash, tx) == all_txs[j as int]);
        let from = match resolve_sender(&tx) {
            Ok(a) => a,
            Err(e) => {
                return Err(e);
            },
        };
        let meta = TransactionMeta {
            tx_hash,
            index: j as u64,
            block_hash,
            block_number,
            base_fee,
            timestamp,
        };
        proof {
            lemma_offset_fits_prefix(all_receipts, j as int, n as int);
        }
        let rc = assemble_receipt(&tx, meta, from, receipt, bloom, gas[j], offsets[j]);
        out.push(rc);
        j = j + 1;
    }
    Ok(out)
}

/// The gas used by the first `n` transactions of a block whose receipts
/// are `rs`, each as its receipt reports it.
pub open spec fn gas_used_sum<L>(rs: Seq<Receipt<L>>, n: nat) -> nat
    decreases n,
{
    if n == 0 {
        0
    } else {
        let i = (n - 1) as int;
        gas_used_sum(rs, (n - 1) as nat) + spec_gas_used(i as u64, rs[i].cumulative_gas_used, rs) as nat
    }
}

/// The gas used that the receipts of a block report adds up to the
/// block's cumulative gas: over the first `n` transactions, to the
/// cumulative gas of the `n`-th.
pub proof fn law_gas_used_sums_to_cumulative<L>(rs: Seq<Receipt<L>>, n: nat)
    requires
        gas_monotone(rs),
        rs.len() <= u64::MAX,
        1 <= n <= rs.len(),
    ensures
        gas_used_sum(rs, n) == rs[n - 1].cumulative_gas_used,
    decreases n,
{
    let i = (n - 1) as int;
    assert(gas_used_sum(rs, n) == gas_used_sum(rs, (n - 1) as nat) + spec_gas_used(i as u64, rs[i].cumulative_gas_used, rs) as nat);
    if n > 1 {
        law_gas_used_sums_to_cumulative(rs, (n - 1) as nat);
        assert(rs[i].cumulative_gas_used >= rs[i - 1].cumulative_gas_used);
        assert((i as u64) - 1 == i - 1);
    } else {
        assert(gas_used_sum(rs, 0) == 0);
    }
}

/// Log indices run on across a block without gap or overlap: the logs of
/// the transaction at `i + 1` start where those of the transaction at `i`
/// end.
pub proof fn law_log_indices_consecutive<L>(rs: Seq<Receipt<L>>, i: int)
    requires
        0 <= i < rs.len(),
        rs.len() <= u64::MAX,
    ensures
        log_count_sum(receipts_before(rs, (i + 1) as u64)) == log_count_sum(receipts_before(rs, i as u64))
            + rs[i].logs@.len(),
{
    assert(receipts_before(rs, i as u64) =~= rs.take(i));
    assert(receipts_before(rs, (i + 1) as u64) =~= rs.take(i + 1));
    assert(rs.take(i + 1).drop_last() =~= rs.take(i));
}

} // verus!
