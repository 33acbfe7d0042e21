use signet_sdk::block_range::BlockRangeInclusiveIter;
use signet_sdk::eth::{
    block_cfg_error, call_answer, call_response, check_block_range, check_fee_history_len, check_logs_limit, effective_gas_price,
    estimate_gas_answer, estimate_response, fee_history_base_fees, fee_history_block_count, fee_history_range,
    filter_poll_window, gas_price, get_logs_in_block_range, header_hash_from_next,
    normalize_gas_stateless, not_supported, pending_header, require_tx_cache_for_send, rpc_tx_sender, CallErrorData,
    EstimationOutcome, EthFilterError, ExecutionOutcome, FeeHistoryError, HeaderFields,
    RangeBlock, MIN_TRANSACTION_GAS,
};
use signet_sdk::filters::{stale_marks, ActiveFilter, FilterManager};
use signet_sdk::interest::{
    apply_filter, Either, FilterOutput, InterestKind, NotifBlock,
    NotifTx, SubItem, SubscribeArgs, SubscriptionBuffer, SubscriptionKind,
};
use signet_sdk::primitives::U256;
use signet_sdk::receipts::{
    block_receipts, build_envelope, build_signet_receipt, log_index_offset, receipt_gas_used,
    resolve_sender, Receipt, ReceiptEnvelope, ReceiptError, ReceiptTx, TransactionMeta, TxKind,
    TxType,
};
use signet_sdk::signet::{
    bundle_answer, bundle_timeout_ms, require_tx_cache, BundleAnswer, SignetError, SimulationEnd,
};
use signet_sdk::subs::{subscription_answer, SubscriptionManager, SubscriptionState, TaskAction, TaskEvent};
use signet_sdk::tx_cache::{
    CacheEndpoint, SignetEthBundleResponse, TxCacheBundleResponse, TxCacheBundlesResponse,
    TxCacheOrdersResponse, TxCacheTransactionResponse, TxCacheTransactionsResponse,
};
use std::time::Duration;

// Gas and fees.

#[test]
fn normalize_gas_drops_low_and_caps_high() {
    let mut g = Some(MIN_TRANSACTION_GAS - 1);
    normalize_gas_stateless(&mut g, 1_000_000);
    assert_eq!(g, None);
    let mut g = Some(MIN_TRANSACTION_GAS);
    normalize_gas_stateless(&mut g, 1_000_000);
    assert_eq!(g, Some(21000));
    let mut g = Some(2_000_000);
    normalize_gas_stateless(&mut g, 1_000_000);
    assert_eq!(g, Some(1_000_000));
    let mut g = None;
    normalize_gas_stateless(&mut g, 1_000_000);
    assert_eq!(g, None);
}

#[test]
fn call_and_estimate_responses() {
    assert_eq!(call_response(ExecutionOutcome::Success { output: vec![1, 2] }), Ok(vec![1, 2]));
    let e = call_response(ExecutionOutcome::Revert { output: vec![9] }).unwrap_err();
    assert_eq!(e.message, "execution reverted");
    assert_eq!(e.data, CallErrorData::Bytes(vec![9]));
    let e = call_response(ExecutionOutcome::Halt { reason: "OutOfGas".to_string() }).unwrap_err();
    assert_eq!(e.message, "execution halted");
    assert_eq!(e.data, CallErrorData::String("OutOfGas".to_string()));

    assert_eq!(estimate_response(EstimationOutcome::Success { estimation: 53000 }), Ok(53000));
    let e = estimate_response(EstimationOutcome::Revert { reason: vec![1] }).unwrap_err();
    assert_eq!(e.message, "execution reverted");
    let e = estimate_response(EstimationOutcome::Halt { reason: "x".to_string() }).unwrap_err();
    assert_eq!(e.data, CallErrorData::String("x".to_string()));
}

#[test]
fn block_cfg_failures_are_internal_errors() {
    let e = block_cfg_error("header not found".to_string());
    assert_eq!(e.message, "error while loading block cfg");
    assert_eq!(e.data, CallErrorData::String("header not found".to_string()));
    let e = estimate_gas_answer(Err("no block".to_string())).unwrap_err();
    assert_eq!(e.message, "error while loading block cfg");
    assert_eq!(e.data, CallErrorData::String("no block".to_string()));
    assert_eq!(estimate_gas_answer(Ok(EstimationOutcome::Success { estimation: 21000 })), Ok(21000));
    let e = call_answer(Err("no block".to_string())).unwrap_err();
    assert_eq!(e.message, "error while loading block cfg");
    assert_eq!(call_answer(Ok(ExecutionOutcome::Success { output: vec![7] })), Ok(vec![7]));
    assert_eq!(call_answer(Ok(ExecutionOutcome::Revert { output: vec![7] })).unwrap_err().message, "execution reverted");
}

#[test]
fn stale_marks_reach_the_limit() {
    assert_eq!(stale_marks(&vec![0, 5, 10, 11], 10), vec![false, false, true, true]);
    assert_eq!(stale_marks(&vec![0, 3], 0), vec![true, true]);
    assert!(stale_marks(&vec![], 4).is_empty());
}

#[test]
fn clean_stale_with_zero_limit_drops_everything() {
    let mut fm: FilterManager<u8> = FilterManager::new();
    let a = fm.install_block_filter(1);
    fm.clean_stale(Duration::ZERO);
    assert!(fm.get(a).is_none());
}

#[test]
fn gas_price_adds_base_fee() {
    assert_eq!(gas_price(U256::from_u64(2), Some(7)), U256::from_u64(9));
    assert_eq!(gas_price(U256::from_u64(2), None), U256::from_u64(2));
    let big = U256 { hi: 0, lo: u128::MAX };
    assert_eq!(gas_price(big, Some(1)), U256 { hi: 1, lo: 0 });
}

#[test]
fn raw_transactions_need_a_tx_cache() {
    assert_eq!(require_tx_cache_for_send(Some(1u8)), Ok(1));
    assert_eq!(require_tx_cache_for_send::<u8>(None), Err("tx-cache URL not provided".to_string()));
}

#[test]
fn not_supported_message() {
    assert_eq!(
        not_supported(),
        "Method not supported. See signet documentation for a list of unsupported methods: https://docs.signet.sh/."
    );
}

#[test]
fn fee_history_windows() {
    assert_eq!(fee_history_block_count(0, false, false, 10, 20), None);
    assert_eq!(fee_history_block_count(50, false, false, 10, 20), Some(10));
    assert_eq!(fee_history_block_count(50, false, true, 10, 20), Some(20));
    assert_eq!(fee_history_block_count(5, true, false, 10, 20), Some(4));
    assert_eq!(fee_history_range(4, 100), (97, 4));
    assert_eq!(fee_history_range(10, 3), (0, 4));
    assert_eq!(check_fee_history_len(4, 4), Ok(()));
    assert_eq!(check_fee_history_len(3, 4), Err(FeeHistoryError::InvalidBlockRange));
    let (fees, blob) = fee_history_base_fees(&vec![10, 11], 12);
    assert_eq!(fees, vec![10u128, 11, 12]);
    assert_eq!(blob, vec![0u128, 0, 0]);
}

#[test]
fn log_range_checks() {
    assert_eq!(check_block_range(5, 4, 100), Err(EthFilterError::InvalidBlockRangeParams));
    assert_eq!(check_block_range(5, 200, 100), Err(EthFilterError::QueryExceedsMaxBlocks(100)));
    assert_eq!(check_block_range(5, 105, 100), Ok(()));
    assert_eq!(check_logs_limit(1, 1, 100, 10, 1), Ok(()));
    assert_eq!(
        check_logs_limit(1, 9, 11, 10, 5),
        Err(EthFilterError::QueryExceedsMaxResults { max_logs: 10, from_block: 1, to_block: 4 })
    );
    assert_eq!(
        check_logs_limit(0, 9, 11, 10, 0),
        Err(EthFilterError::QueryExceedsMaxResults { max_logs: 10, from_block: 0, to_block: 0 })
    );
}

#[test]
fn logs_in_block_range() {
    let blocks = vec![
        RangeBlock { number: 1, bloom_matches: true, logs: vec!["a", "b"] },
        RangeBlock { number: 2, bloom_matches: false, logs: vec!["ignored"] },
        RangeBlock { number: 3, bloom_matches: true, logs: vec!["c"] },
    ];
    assert_eq!(get_logs_in_block_range(1, 3, 100, 10, blocks.clone()), Ok(vec!["a", "b", "c"]));
    assert_eq!(
        get_logs_in_block_range(1, 3, 100, 2, blocks.clone()),
        Err(EthFilterError::QueryExceedsMaxResults { max_logs: 2, from_block: 1, to_block: 2 })
    );
    assert_eq!(get_logs_in_block_range(3, 1, 100, 2, blocks.clone()), Err(EthFilterError::InvalidBlockRangeParams));
    assert_eq!(get_logs_in_block_range(1, 3, 1, 2, blocks), Err(EthFilterError::QueryExceedsMaxBlocks(1)));
    // a single-block query returns all of its logs
    let one = vec![RangeBlock { number: 7, bloom_matches: true, logs: vec![1, 2, 3] }];
    assert_eq!(get_logs_in_block_range(7, 7, 100, 1, one), Ok(vec![1, 2, 3]));
}

#[test]
fn header_hashes_and_poll_windows() {
    let parents = vec![[0u8; 32], [1u8; 32], [2u8; 32]];
    assert_eq!(header_hash_from_next(&parents, 0), Some([1u8; 32]));
    assert_eq!(header_hash_from_next(&parents, 1), Some([2u8; 32]));
    assert_eq!(header_hash_from_next(&parents, 2), None);
    assert_eq!(filter_poll_window(5, 4), None);
    assert_eq!(filter_poll_window(5, 9), Some((5, 9)));
}

#[test]
fn pending_header_is_next_block() {
    let latest = HeaderFields { parent_hash: [0u8; 32], number: 10, timestamp: 100, base_fee_per_gas: Some(7), gas_limit: 30 };
    let h = pending_header(latest, [9u8; 32], Some(8), 50);
    assert_eq!(
        h,
        HeaderFields { parent_hash: [9u8; 32], number: 11, timestamp: 112, base_fee_per_gas: Some(8), gas_limit: 50 }
    );
}

#[test]
fn effective_gas_price_cases() {
    assert_eq!(effective_gas_price(Some(3), 100, Some(10)), 13);
    assert_eq!(effective_gas_price(None, 100, Some(10)), 10);
    assert_eq!(effective_gas_price(Some(3), 100, None), 100);
    assert_eq!(rpc_tx_sender(Some([1u8; 20]), Some([2u8; 20])), Some([1u8; 20]));
    assert_eq!(rpc_tx_sender(None, Some([2u8; 20])), Some([2u8; 20]));
    assert_eq!(rpc_tx_sender(None, None), None);
}

#[test]
fn block_range_iter_chunks() {
    let mut it = BlockRangeInclusiveIter::new(0..=10, 4);
    assert_eq!(it.next(), Some((0, 4)));
    assert_eq!(it.next(), Some((5, 9)));
    assert_eq!(it.next(), Some((10, 10)));
    assert_eq!(it.next(), None);
    let mut one = BlockRangeInclusiveIter::new(3..=3, 0);
    assert_eq!(one.next(), Some((3, 3)));
    assert_eq!(one.next(), None);
    let mut top = BlockRangeInclusiveIter::new((u64::MAX - 1)..=u64::MAX, 5);
    assert_eq!(top.next(), Some((u64::MAX - 1, u64::MAX)));
    assert_eq!(top.next(), None);
}

// Interests, filters, subscriptions.

#[test]
fn interest_kinds() {
    let f: InterestKind<u8> = InterestKind::Log(Box::new(3));
    assert!(f.is_filter());
    assert!(!f.is_block());
    assert_eq!(f.as_filter(), Some(&3));
    let b: InterestKind<u8> = InterestKind::Block;
    assert!(b.is_block());
    assert_eq!(b.as_filter(), None);
    assert!(matches!(f.empty_output::<u8>(), FilterOutput::Log(v) if v.is_empty()));
    assert!(matches!(b.empty_output::<u8>(), FilterOutput::Block(v) if v.is_empty()));
    assert!(matches!(b.empty_sub_buffer::<u8, u8>(), SubscriptionBuffer::Block(v) if v.is_empty()));
}

#[test]
fn subscribe_args() {
    assert_eq!(InterestKind::try_from(SubscribeArgs(SubscriptionKind::Logs, Some(Box::new(1u8)))), Ok(InterestKind::Log(Box::new(1u8))));
    assert_eq!(
        InterestKind::<u8>::try_from(SubscribeArgs(SubscriptionKind::Logs, None)),
        Err("missing filter for Logs subscription".to_string())
    );
    assert_eq!(InterestKind::<u8>::try_from(SubscribeArgs(SubscriptionKind::NewHeads, None)), Ok(InterestKind::Block));
    assert_eq!(
        InterestKind::try_from(SubscribeArgs(SubscriptionKind::NewHeads, Some(Box::new(1u8)))),
        Err("filter not supported for NewHeads subscription".to_string())
    );
    assert_eq!(
        InterestKind::<u8>::try_from(SubscribeArgs(SubscriptionKind::Syncing, None)),
        Err("unsupported subscription kind: Syncing".to_string())
    );
    assert_eq!(
        InterestKind::<u8>::try_from(SubscribeArgs(SubscriptionKind::NewPendingTransactions, None)),
        Err("unsupported subscription kind: NewPendingTransactions".to_string())
    );
}

#[test]
fn subscription_ids_count_up_over_a_run() {
    let mut sm: SubscriptionManager<u8> = SubscriptionManager::new();
    let enabled = [true, false, true, true, false, true];
    let got: Vec<Option<u64>> = enabled.iter().enumerate().map(|(i, e)| sm.subscribe(*e, i as u8)).collect();
    assert_eq!(got, vec![Some(1), None, Some(2), Some(3), None, Some(4)]);
    assert_eq!(sm.unsubscribe(3), Some(3));
    assert_eq!(sm.unsubscribe(3), None);
    assert_eq!(sm.unsubscribe(9), None);
}

#[test]
fn task_run_delivers_every_item_once_in_order() {
    let interest: InterestKind<u8> = InterestKind::Log(Box::new(0));
    let mut st: SubscriptionState<u8, u16> = SubscriptionState::new(&interest);
    let mut sent: Vec<SubItem<u8, u16>> = Vec::new();
    let events = vec![
        TaskEvent::Notification(SubscriptionBuffer::from_logs(vec![1, 2])),
        TaskEvent::Permits(1),
        TaskEvent::Notification(SubscriptionBuffer::from_logs(vec![3])),
        TaskEvent::Lagged,
        TaskEvent::Permits(5),
        TaskEvent::Permits(5),
    ];
    for e in events {
        if let TaskAction::Send(items) = st.step(e) {
            sent.extend(items);
        }
    }
    assert_eq!(sent, vec![SubItem::Log(Box::new(1)), SubItem::Log(Box::new(2)), SubItem::Log(Box::new(3))]);
    assert_eq!(st.permits_to_request(8), None);
}

#[test]
fn subscription_answers() {
    assert_eq!(subscription_answer(Some(3)), Ok(3));
    assert_eq!(subscription_answer(None), Err("pubsub not enabled".to_string()));
}

#[test]
fn filter_output_extend_and_pop() {
    let mut out: FilterOutput<u8> = FilterOutput::empty();
    assert!(out.is_empty());
    out.extend(FilterOutput::from_logs(vec![1, 2]));
    out.extend(FilterOutput::collect_logs(vec![3]));
    assert_eq!(out.len(), 3);
    assert_eq!(out.pop_front(), Some(Either::Log(1)));
    assert_eq!(out.len(), 2);
    let mut blocks: FilterOutput<u8> = FilterOutput::from_block_hashes(vec![[1u8; 32]]);
    blocks.extend(FilterOutput::empty());
    assert_eq!(blocks.len(), 1);
    assert!(matches!(blocks.pop_front(), Some(Either::Block(h)) if h == [1u8; 32]));
    assert!(blocks.is_empty());
}

#[test]
fn subscription_buffer_extend_and_pop() {
    let mut buf: SubscriptionBuffer<u8, u16> = SubscriptionBuffer::from_logs(vec![1]);
    buf.extend(SubscriptionBuffer::from_logs(vec![2, 3]));
    assert_eq!(buf.len(), 3);
    assert_eq!(buf.pop_front(), Some(SubItem::Log(Box::new(1))));
    let mut heads: SubscriptionBuffer<u8, u16> = SubscriptionBuffer::from_headers(vec![7]);
    assert_eq!(heads.pop_front(), Some(SubItem::Block(Box::new(7))));
    assert_eq!(heads.pop_front(), None);
    assert!(heads.is_empty());
}

#[test]
fn apply_filter_numbers_logs() {
    let blocks = vec![
        NotifBlock {
            number: 5,
            hash: [5u8; 32],
            timestamp: 50,
            bloom_matches: true,
            txs: vec![
                NotifTx { hash: [1u8; 32], logs: vec![("a", false), ("b", true)] },
                NotifTx { hash: [2u8; 32], logs: vec![("c", true)] },
            ],
        },
        NotifBlock {
            number: 6,
            hash: [6u8; 32],
            timestamp: 60,
            bloom_matches: false,
            txs: vec![NotifTx { hash: [3u8; 32], logs: vec![("d", true)] }],
        },
    ];
    let logs = apply_filter(blocks.clone());
    assert_eq!(logs.len(), 2);
    assert_eq!(logs[0].inner, "b");
    assert_eq!(logs[0].block_number, 5);
    assert_eq!(logs[0].block_hash, [5u8; 32]);
    assert_eq!(logs[0].block_timestamp, 50);
    assert_eq!(logs[0].transaction_hash, [1u8; 32]);
    assert_eq!(logs[0].transaction_index, 0);
    assert_eq!(logs[0].log_index, 1);
    assert!(!logs[0].removed);
    assert_eq!(logs[1].inner, "c");
    assert_eq!(logs[1].transaction_index, 1);
    assert_eq!(logs[1].log_index, 0);

    let log_interest: InterestKind<u8> = InterestKind::Log(Box::new(0));
    let buf = log_interest.filter_notification_for_sub::<&str, u8>(vec![1, 2], blocks.clone());
    assert!(matches!(buf, SubscriptionBuffer::Log(v) if v.len() == 2));
    let block_interest: InterestKind<u8> = InterestKind::Block;
    let buf = block_interest.filter_notification_for_sub::<&str, u8>(vec![1, 2], blocks);
    assert!(matches!(buf, SubscriptionBuffer::Block(v) if v.iter().copied().collect::<Vec<u8>>() == vec![1, 2]));
}

#[test]
fn filter_manager_lifecycle() {
    let mut fm: FilterManager<u8> = FilterManager::new();
    let a = fm.install_log_filter(10, 7);
    let b = fm.install_block_filter(10);
    assert!(a < b);
    let fa = fm.get(a).unwrap();
    assert!(fa.is_filter());
    assert_eq!(fa.as_filter(), Some(&7));
    assert_eq!(fa.next_start_block(), 11);
    assert!(fm.get(b).unwrap().is_block());
    assert!(fm.mark_polled(b, 20));
    assert_eq!(fm.get(b).unwrap().next_start_block(), 21);
    assert!(!fm.mark_polled(999, 20));
    assert!(fm.uninstall(a).is_some());
    assert!(fm.get(a).is_none());
    assert!(fm.uninstall(a).is_none());
    fm.clean_stale(Duration::from_secs(3600));
    assert!(fm.get(b).is_some());
}

#[test]
fn remove_stale_drops_marked_filters() {
    let mut fm: FilterManager<u8> = FilterManager::new();
    let a = fm.install_log_filter(1, 1);
    let b = fm.install_log_filter(1, 2);
    let c = fm.install_block_filter(1);
    fm.remove_stale(&vec![false, true, false]);
    assert!(fm.get(a).is_some());
    assert!(fm.get(b).is_none());
    assert!(fm.get(c).is_some());
    fm.remove_stale(&vec![true, true]);
    assert!(fm.get(a).is_none());
    assert!(fm.get(c).is_none());
}

#[test]
fn active_filter_polling() {
    let mut f = ActiveFilter::new(5, InterestKind::<u8>::Block);
    assert_eq!(f.next_start_block(), 6);
    f.mark_polled(9);
    assert_eq!(f.next_start_block(), 10);
    assert!(f.kind().is_block());
    assert!(f.time_since_last_poll() < Duration::from_secs(3600));
}

#[test]
fn subscription_manager_lifecycle() {
    let mut sm: SubscriptionManager<&str> = SubscriptionManager::new();
    assert_eq!(sm.subscribe(false, "x"), None);
    let a = sm.subscribe(true, "a").unwrap();
    let b = sm.subscribe(true, "b").unwrap();
    assert!(a < b);
    assert_eq!(sm.unsubscribe(a), Some("a"));
    assert_eq!(sm.unsubscribe(a), None);
    sm.remove_cancelled(|t: &&str| *t == "b");
    assert_eq!(sm.unsubscribe(b), None);
}

#[test]
fn subscription_task_steps() {
    let interest: InterestKind<u8> = InterestKind::Log(Box::new(0));
    let mut st: SubscriptionState<u8, u16> = SubscriptionState::new(&interest);
    assert_eq!(st.permits_to_request(16), None);
    assert!(matches!(st.step(TaskEvent::Notification(SubscriptionBuffer::from_logs(vec![1, 2, 3]))), TaskAction::Continue));
    assert_eq!(st.permits_to_request(16), Some(3));
    assert_eq!(st.permits_to_request(4), Some(2));
    match st.step(TaskEvent::Permits(2)) {
        TaskAction::Send(items) => assert_eq!(items, vec![SubItem::Log(Box::new(1)), SubItem::Log(Box::new(2))]),
        _ => panic!("expected items to send"),
    }
    assert_eq!(st.permits_to_request(16), Some(1));
    assert!(matches!(st.step(TaskEvent::Lagged), TaskAction::Continue));
    assert!(matches!(st.step(TaskEvent::ClientDisconnected), TaskAction::CancelAndStop));
    assert!(matches!(st.step(TaskEvent::Unsubscribed), TaskAction::Stop));
    assert!(matches!(st.step(TaskEvent::PermitsClosed), TaskAction::Stop));
    assert!(matches!(st.step(TaskEvent::NotificationsClosed), TaskAction::Stop));
}

// Receipts.

fn tx(kind: TxKind, recovered: Option<[u8; 20]>, magic: Option<[u8; 20]>) -> ReceiptTx {
    ReceiptTx {
        tx_type: TxType::Eip1559,
        kind,
        nonce: 0,
        effective_gas_price: 7,
        recovered_signer: recovered,
        magic_sender: magic,
    }
}

fn meta(index: u64) -> TransactionMeta {
    TransactionMeta { tx_hash: [index as u8; 32], index, block_hash: [0xbb; 32], block_number: 12, base_fee: Some(1), timestamp: 99 }
}

#[test]
fn receipt_sender_resolution() {
    assert_eq!(resolve_sender(&tx(TxKind::Create, Some([1u8; 20]), Some([2u8; 20]))), Ok([1u8; 20]));
    assert_eq!(resolve_sender(&tx(TxKind::Create, None, Some([2u8; 20]))), Ok([2u8; 20]));
    assert_eq!(resolve_sender(&tx(TxKind::Create, None, None)), Err(ReceiptError::InvalidTransactionSignature));
}

#[test]
fn receipt_gas_and_log_offsets() {
    let all = vec![
        Receipt { success: true, cumulative_gas_used: 21000, logs: vec![1, 2] },
        Receipt { success: true, cumulative_gas_used: 50000, logs: vec![3] },
        Receipt { success: false, cumulative_gas_used: 80000, logs: vec![] },
    ];
    assert_eq!(receipt_gas_used(0, 21000, &all), 21000);
    assert_eq!(receipt_gas_used(1, 50000, &all), 29000);
    assert_eq!(receipt_gas_used(2, 80000, &all), 30000);
    assert_eq!(receipt_gas_used(9, 80000, &all), 0);
    assert_eq!(log_index_offset(&all, 0), 0);
    assert_eq!(log_index_offset(&all, 1), 2);
    assert_eq!(log_index_offset(&all, 2), 3);
    assert_eq!(log_index_offset(&all, 7), 3);
}

#[test]
fn build_receipt_for_call() {
    let all = vec![
        Receipt { success: true, cumulative_gas_used: 21000, logs: vec!["x", "y"] },
        Receipt { success: true, cumulative_gas_used: 50000, logs: vec!["z"] },
    ];
    let r = build_signet_receipt(
        &tx(TxKind::Call([4u8; 20]), Some([1u8; 20]), None),
        meta(1),
        all[1].clone(),
        &all,
        vec![0u8; 256],
    )
    .unwrap();
    assert_eq!(r.from, [1u8; 20]);
    assert_eq!(r.to, Some([4u8; 20]));
    assert_eq!(r.contract_address, None);
    assert_eq!(r.gas_used, 29000);
    assert_eq!(r.effective_gas_price, 7);
    assert_eq!(r.transaction_index, Some(1));
    assert_eq!(r.block_number, Some(12));
    assert_eq!(r.blob_gas_price, None);
    match r.inner {
        ReceiptEnvelope::Eip1559(inner) => {
            assert!(inner.status);
            assert_eq!(inner.cumulative_gas_used, 50000);
            assert_eq!(inner.logs.len(), 1);
            assert_eq!(inner.logs[0].inner, "z");
            assert_eq!(inner.logs[0].log_index, 2);
            assert_eq!(inner.logs[0].transaction_index, 1);
            assert_eq!(inner.logs[0].block_timestamp, 99);
        }
        _ => panic!("expected an EIP-1559 envelope"),
    }
}

#[test]
fn build_receipt_for_creation_reports_contract_address() {
    // The address created by 0xb20a…e1d0 with nonce 0 and 1, as documented by alloy.
    let sender: [u8; 20] = [
        0xb2, 0x0a, 0x60, 0x8c, 0x62, 0x4c, 0xa5, 0x00, 0x39, 0x05, 0xaa, 0x83, 0x4d, 0xe7, 0x15, 0x6c,
        0x68, 0xb2, 0xe1, 0xd0,
    ];
    let expected0: [u8; 20] = [
        0x00, 0x00, 0x00, 0x00, 0x21, 0x9a, 0xb5, 0x40, 0x35, 0x6c, 0xbb, 0x83, 0x9c, 0xbe, 0x05, 0x30,
        0x3d, 0x77, 0x05, 0xfa,
    ];
    let all = vec![Receipt { success: true, cumulative_gas_used: 100000, logs: Vec::<u8>::new() }];
    let r = build_signet_receipt(&tx(TxKind::Create, Some(sender), None), meta(0), all[0].clone(), &all, vec![])
        .unwrap();
    assert_eq!(r.contract_address, Some(expected0));
    assert_ne!(r.contract_address, Some(sender));
    assert_eq!(r.to, None);
    assert_eq!(r.gas_used, 100000);

    let mut with_nonce = tx(TxKind::Create, Some(sender), None);
    with_nonce.nonce = 1;
    let r1 = build_signet_receipt(&with_nonce, meta(0), all[0].clone(), &all, vec![]).unwrap();
    assert_ne!(r1.contract_address, Some(expected0));
}

#[test]
fn created_address_is_hash_of_rlp_sender_and_nonce() {
    let sender = [0x11u8; 20];
    let mut t = tx(TxKind::Create, Some(sender), None);
    t.nonce = 0x80;
    let all = vec![Receipt { success: true, cumulative_gas_used: 1, logs: Vec::<u8>::new() }];
    let r = build_signet_receipt(&t, meta(0), all[0].clone(), &all, vec![]).unwrap();
    let mut preimage = vec![0xd7u8, 0x94];
    preimage.extend_from_slice(&sender);
    preimage.extend_from_slice(&[0x81, 0x80]);
    let digest = alloy::primitives::keccak256(&preimage).0;
    let mut expected = [0u8; 20];
    expected.copy_from_slice(&digest[12..]);
    assert_eq!(r.contract_address, Some(expected));
}

#[test]
fn build_receipt_rejects_unknown_sender() {
    let all = vec![Receipt { success: true, cumulative_gas_used: 1, logs: Vec::<u8>::new() }];
    assert_eq!(
        build_signet_receipt(&tx(TxKind::Create, None, None), meta(0), all[0].clone(), &all, vec![]),
        Err(ReceiptError::InvalidTransactionSignature)
    );
}

#[test]
fn block_receipts_pairs_transactions_and_receipts() {
    let receipts = vec![
        Receipt { success: true, cumulative_gas_used: 21000, logs: vec![1u8, 2] },
        Receipt { success: true, cumulative_gas_used: 42000, logs: vec![3u8] },
    ];
    let txs = vec![
        ([1u8; 32], tx(TxKind::Call([4u8; 20]), Some([1u8; 20]), None)),
        ([2u8; 32], tx(TxKind::Call([5u8; 20]), None, Some([2u8; 20]))),
    ];
    let out = block_receipts(txs.clone(), receipts.clone(), vec![vec![], vec![]], [0xbb; 32], 12, Some(1), 99).unwrap();
    assert_eq!(out.len(), 2);
    assert_eq!(out[0].transaction_hash, [1u8; 32]);
    assert_eq!(out[1].transaction_hash, [2u8; 32]);
    assert_eq!(out[1].from, [2u8; 20]);
    assert_eq!(out[1].gas_used, 21000);
    assert_eq!(out[0].gas_used + out[1].gas_used, 42000);
    match &out[1].inner {
        ReceiptEnvelope::Eip1559(inner) => assert_eq!(inner.logs[0].log_index, 2),
        _ => panic!("expected an EIP-1559 envelope"),
    }
    let mut bad = txs;
    bad[1].1.recovered_signer = None;
    bad[1].1.magic_sender = None;
    assert_eq!(
        block_receipts(bad, receipts, vec![vec![], vec![]], [0xbb; 32], 12, Some(1), 99).map(|v| v.len()),
        Err(ReceiptError::InvalidTransactionSignature)
    );
}

#[test]
fn envelopes_follow_tx_type() {
    assert_eq!(build_envelope(1u8, TxType::Legacy), ReceiptEnvelope::Legacy(1));
    assert_eq!(build_envelope(1u8, TxType::Eip2930), ReceiptEnvelope::Eip2930(1));
    assert_eq!(build_envelope(1u8, TxType::Eip4844), ReceiptEnvelope::Eip4844(1));
    assert_eq!(build_envelope(1u8, TxType::Eip7702), ReceiptEnvelope::Eip7702(1));
}

// The signet namespace and the transaction cache.

#[test]
fn signet_errors_and_limits() {
    assert_eq!(SignetError::TxCacheUrlNotProvided.into_string(), "transaction cache URL not provided");
    assert_eq!(SignetError::EthApiError("boom".to_string()).into_string(), "boom");
    assert_eq!(require_tx_cache(Some(3u8)), Ok(3));
    assert_eq!(require_tx_cache::<u8>(None), Err("transaction cache URL not provided".to_string()));
    assert_eq!(bundle_timeout_ms(None), 1000);
    assert_eq!(bundle_timeout_ms(Some(5)), 5);
}

#[test]
fn bundle_answers() {
    assert_eq!(bundle_answer(SimulationEnd::Finished(4u8)), BundleAnswer::Success(4));
    assert_eq!(
        bundle_answer::<u8>(SimulationEnd::TimedOut),
        BundleAnswer::InternalError { message: "timeout during bundle simulation".to_string(), data: None }
    );
    assert_eq!(
        bundle_answer::<u8>(SimulationEnd::BlockCfgError("no header".to_string())),
        BundleAnswer::InternalError {
            message: "error while loading block cfg".to_string(),
            data: Some("no header".to_string()),
        }
    );
    assert_eq!(
        bundle_answer::<u8>(SimulationEnd::Failed("bad".to_string())),
        BundleAnswer::InternalError { message: "bad".to_string(), data: None }
    );
}

#[test]
fn tx_cache_shapes() {
    assert_eq!(CacheEndpoint::Transactions.path(), "transactions");
    assert_eq!(CacheEndpoint::Bundles.path(), "bundles");
    assert_eq!(CacheEndpoint::Orders.path(), "orders");
    let b = SignetEthBundleResponse::from_bundle_and_id("bundle", 42);
    assert_eq!(b.id(), 42);
    assert_eq!(*b.bundle(), "bundle");
    let one = TxCacheBundleResponse::from_bundle(b.clone());
    assert_eq!(one.into_bundle(), b);
    let many = TxCacheBundlesResponse::from_bundles(vec![b.clone()]);
    assert_eq!(many.into_bundles(), vec![b.clone()]);
    assert_eq!(b.into_bundle(), "bundle");
    assert_eq!(TxCacheTransactionsResponse::from_transactions(vec![1u8]).into_transactions(), vec![1u8]);
    assert_eq!(TxCacheTransactionResponse::from_tx_hash([3u8; 32]).into_tx_hash(), [3u8; 32]);
    assert_eq!(TxCacheOrdersResponse::from_orders(vec!["o"]).into_orders(), vec!["o"]);
}
