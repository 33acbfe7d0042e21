use signet_sdk::block::{extract_block, Extracts, Extractor, HostEvents};
use signet_sdk::events::{
    retain_outputs_on_chain, BlockHeader, BlockSubmitted, Enter, EnterToken, Events, Filled,
    OrdersEvent, PassageEvent, Transact, TransactorEvent, ZenithEvent,
};
use signet_sdk::extract::{
    extract_log, ExtractedEvent, HostBlock, HostLog, HostTx, MagicSig, MagicSigInfo,
    SystemConstants,
};
use signet_sdk::orders::Output;
use signet_sdk::primitives::U256;

fn u(x: u64) -> U256 {
    U256::from_u64(x)
}

fn make_enter_event() -> Enter {
    Enter { rollup_chain_id: u(519), rollup_recipient: [0u8; 20], amount: u(1_000_000) }
}

fn make_enter_token_event() -> EnterToken {
    EnterToken { rollup_chain_id: u(519), rollup_recipient: [0u8; 20], token: [0u8; 20], amount: u(1_000_000) }
}

fn make_block_submitted_event() -> BlockSubmitted {
    BlockSubmitted {
        sequencer: [0u8; 20],
        rollup_chain_id: u(519),
        gas_limit: u(30_000_000),
        reward_address: [0u8; 20],
        block_data_hash: [0u8; 32],
    }
}

fn make_transact_event() -> Transact {
    Transact {
        rollup_chain_id: u(519),
        sender: [0u8; 20],
        to: [0u8; 20],
        data: vec![],
        value: U256::zero(),
        gas: u(21000),
        max_fee_per_gas: u(1_000_000_000),
    }
}

fn make_filled_event() -> Filled {
    Filled { outputs: vec![] }
}

fn constants() -> SystemConstants {
    SystemConstants {
        host_chain_id: 1,
        ru_chain_id: 519,
        host_deploy_height: 10,
        host_zenith: [1u8; 20],
        host_orders: [2u8; 20],
        host_transactor: [3u8; 20],
        host_passage: [4u8; 20],
        host_tokens: vec![[5u8; 20]],
    }
}

fn log_at(address: [u8; 20]) -> HostLog {
    HostLog { address, passage: None, zenith: None, transactor: None, orders: None }
}

// Events.

#[test]
fn from_enter_token() {
    let e = make_enter_token_event();
    let events: Events = e.into();
    assert!(events.is_enter_token());
    assert!(events.as_enter_token().is_some());
}

#[test]
fn from_enter() {
    let e = make_enter_event();
    let events: Events = e.into();
    assert!(events.is_enter());
    assert!(events.as_enter().is_some());
}

#[test]
fn from_block_submitted() {
    let e = make_block_submitted_event();
    let events: Events = e.into();
    assert!(events.is_block_submitted());
    assert!(events.as_block_submitted().is_some());
}

#[test]
fn from_filled() {
    let e = make_filled_event();
    let events: Events = e.clone().into();
    assert!(events.is_filled());
    assert!(events.as_filled().is_some());
}

#[test]
fn from_transact() {
    let e = make_transact_event();
    let events: Events = e.clone().into();
    assert!(events.is_transact());
    assert!(events.as_transact().is_some());
}

#[test]
fn enter_is_not_other_types() {
    let events: Events = make_enter_event().into();
    assert!(!events.is_enter_token());
    assert!(!events.is_block_submitted());
    assert!(!events.is_transact());
    assert!(!events.is_filled());
}

#[test]
fn enter_token_is_not_other_types() {
    let events: Events = make_enter_token_event().into();
    assert!(!events.is_enter());
    assert!(!events.is_block_submitted());
    assert!(!events.is_transact());
    assert!(!events.is_filled());
}

#[test]
fn block_submitted_is_not_other_types() {
    let events: Events = make_block_submitted_event().into();
    assert!(!events.is_enter());
    assert!(!events.is_enter_token());
    assert!(!events.is_transact());
    assert!(!events.is_filled());
}

#[test]
fn transact_is_not_other_types() {
    let events: Events = make_transact_event().into();
    assert!(!events.is_enter());
    assert!(!events.is_enter_token());
    assert!(!events.is_block_submitted());
    assert!(!events.is_filled());
}

#[test]
fn filled_is_not_other_types() {
    let events: Events = make_filled_event().into();
    assert!(!events.is_enter());
    assert!(!events.is_enter_token());
    assert!(!events.is_block_submitted());
    assert!(!events.is_transact());
}

#[test]
fn as_enter_returns_none_for_other() {
    let events: Events = make_enter_token_event().into();
    assert!(events.as_enter().is_none());
}

#[test]
fn as_enter_token_returns_none_for_other() {
    let events: Events = make_enter_event().into();
    assert!(events.as_enter_token().is_none());
}

#[test]
fn as_block_submitted_returns_none_for_other() {
    let events: Events = make_enter_event().into();
    assert!(events.as_block_submitted().is_none());
}

#[test]
fn as_transact_returns_none_for_other() {
    let events: Events = make_enter_event().into();
    assert!(events.as_transact().is_none());
}

#[test]
fn as_filled_returns_none_for_other() {
    let events: Events = make_enter_event().into();
    assert!(events.as_filled().is_none());
}

#[test]
fn events_equality() {
    let e1: Events = make_enter_event().into();
    let e2: Events = make_enter_event().into();
    assert_eq!(e1, e2);
}

#[test]
fn events_inequality() {
    let e1: Events = make_enter_event().into();
    let e2: Events = make_enter_token_event().into();
    assert_ne!(e1, e2);
}

#[test]
fn events_debug() {
    let events: Events = make_enter_event().into();
    let debug_str = format!("{:?}", events);
    assert!(debug_str.contains("Enter"));
}

#[test]
fn events_clone() {
    let e1: Events = make_enter_event().into();
    let e2 = e1.clone();
    assert_eq!(e1, e2);
}

#[test]
fn decoders_keep_only_the_rollup_chain() {
    let mut other_chain = make_enter_event();
    other_chain.rollup_chain_id = u(520);
    assert_eq!(Events::decode_passage(Some(PassageEvent::Enter(make_enter_event())), 519), Some(Events::Enter(make_enter_event())));
    assert_eq!(Events::decode_passage(Some(PassageEvent::Enter(other_chain)), 519), None);
    assert_eq!(Events::decode_passage(Some(PassageEvent::Other), 519), None);
    assert_eq!(Events::decode_passage(None, 519), None);
    assert_eq!(
        Events::decode_zenith(Some(ZenithEvent::BlockSubmitted(make_block_submitted_event())), 519),
        Some(Events::BlockSubmitted(make_block_submitted_event()))
    );
    assert_eq!(Events::decode_zenith(Some(ZenithEvent::BlockSubmitted(make_block_submitted_event())), 1), None);
    assert_eq!(
        Events::decode_transactor(Some(TransactorEvent::Transact(make_transact_event())), 519),
        Some(Events::Transact(make_transact_event()))
    );
    assert_eq!(Events::decode_transactor(Some(TransactorEvent::Other), 519), None);
}

#[test]
fn filled_keeps_outputs_for_the_rollup_chain() {
    let o1 = Output { token: [1u8; 20], amount: u(1), recipient: [2u8; 20], chain_id: 519 };
    let o2 = Output { token: [3u8; 20], amount: u(2), recipient: [4u8; 20], chain_id: 1 };
    assert_eq!(retain_outputs_on_chain(vec![o1, o2, o1], 519), vec![o1, o1]);
    let decoded = Events::decode_orders(Some(OrdersEvent::Filled(Filled { outputs: vec![o1, o2] })), 519);
    assert_eq!(decoded, Some(Events::Filled(Filled { outputs: vec![o1] })));
    assert_eq!(Events::decode_orders(Some(OrdersEvent::Other), 519), None);
}

#[test]
fn block_header_from_submitted() {
    let h = BlockHeader::from_block_submitted(make_block_submitted_event(), u(77));
    assert_eq!(h.rollup_chain_id, u(519));
    assert_eq!(h.host_block_number, u(77));
    assert_eq!(h.gas_limit, u(30_000_000));
}

// Extraction.

#[test]
fn extract_log_dispatches_on_contract() {
    let c = constants();
    let mut zenith = log_at(c.host_zenith);
    zenith.zenith = Some(ZenithEvent::BlockSubmitted(make_block_submitted_event()));
    assert_eq!(extract_log(&c, zenith.clone()), Some(Events::BlockSubmitted(make_block_submitted_event())));

    // the same decoded event from another contract is ignored
    let mut stranger = zenith.clone();
    stranger.address = [9u8; 20];
    assert_eq!(extract_log(&c, stranger), None);

    let mut passage = log_at(c.host_passage);
    passage.passage = Some(PassageEvent::Enter(make_enter_event()));
    assert_eq!(extract_log(&c, passage), Some(Events::Enter(make_enter_event())));

    let mut transactor = log_at(c.host_transactor);
    transactor.transactor = Some(TransactorEvent::Transact(make_transact_event()));
    assert_eq!(extract_log(&c, transactor), Some(Events::Transact(make_transact_event())));
}

#[test]
fn extract_log_keeps_only_host_tokens() {
    let c = constants();
    let mut known = make_enter_token_event();
    known.token = [5u8; 20];
    let mut passage = log_at(c.host_passage);
    passage.passage = Some(PassageEvent::EnterToken(known));
    assert_eq!(extract_log(&c, passage.clone()), Some(Events::EnterToken(known)));

    let mut unknown = known;
    unknown.token = [6u8; 20];
    passage.passage = Some(PassageEvent::EnterToken(unknown));
    assert_eq!(extract_log(&c, passage), None);
}

#[test]
fn constants_helpers() {
    let c = constants();
    assert!(c.is_host_token([5u8; 20]));
    assert!(!c.is_host_token([6u8; 20]));
    assert_eq!(c.host_block_to_rollup_block_num(15), Some(5));
    assert_eq!(c.host_block_to_rollup_block_num(10), Some(0));
    assert_eq!(c.host_block_to_rollup_block_num(9), None);
}

#[test]
fn extract_block_numbers_logs_within_receipts() {
    let c = constants();
    let mut enter = log_at(c.host_passage);
    enter.passage = Some(PassageEvent::Enter(make_enter_event()));
    let noise = log_at([9u8; 20]);
    let block = HostBlock {
        number: 20,
        timestamp: 1000,
        txs: vec![
            HostTx { hash: [0xaau8; 32], is_eip4844: false, logs: vec![noise.clone(), enter.clone()] },
            HostTx { hash: [0xbbu8; 32], is_eip4844: true, logs: vec![enter.clone()] },
        ],
    };
    let events = extract_block(&c, block);
    assert_eq!(events.len(), 2);
    assert_eq!(events[0].tx_hash, [0xaau8; 32]);
    assert_eq!(events[0].log_index, 1);
    assert!(!events[0].is_eip4844);
    assert_eq!(events[1].tx_hash, [0xbbu8; 32]);
    assert_eq!(events[1].log_index, 0);
    assert!(events[1].is_eip4844);
}

#[test]
fn extractor_skips_blocks_up_to_deploy_height() {
    let c = constants();
    let mut submitted = log_at(c.host_zenith);
    submitted.zenith = Some(ZenithEvent::BlockSubmitted(make_block_submitted_event()));
    let mut enter = log_at(c.host_passage);
    enter.passage = Some(PassageEvent::Enter(make_enter_event()));
    let blocks = vec![
        HostBlock { number: 10, timestamp: 1, txs: vec![HostTx { hash: [1u8; 32], is_eip4844: false, logs: vec![enter.clone()] }] },
        HostBlock {
            number: 13,
            timestamp: 2,
            txs: vec![HostTx { hash: [2u8; 32], is_eip4844: false, logs: vec![enter.clone(), submitted.clone()] }],
        },
    ];
    let extractor = Extractor::new(c);
    let extracts = extractor.extract_signet(blocks);
    assert_eq!(extracts.len(), 1);
    let x = &extracts[0];
    assert_eq!(x.ru_height, 3);
    assert_eq!(x.host_block_number(), 13);
    assert_eq!(x.host_block_timestamp(), 2);
    assert_eq!(x.chain_id, 519);
    assert_eq!(x.host_chain_id, 1);
    assert_eq!(x.enters().len(), 1);
    assert!(x.contains_block());
    let header = x.ru_header().unwrap();
    assert_eq!(header.host_block_number, u(13));
    assert_eq!(extractor.constants().ru_chain_id, 519);
}

#[test]
fn extracted_event_conversions() {
    let e = ExtractedEvent { tx_hash: [7u8; 32], is_eip4844: false, log_index: 3, event: Events::Enter(make_enter_event()) };
    assert!(e.is_enter());
    assert!(!e.is_transact());
    assert_eq!(e.tx_hash(), [7u8; 32]);
    let enter = e.clone().try_into_enter().unwrap();
    assert_eq!(enter.event, make_enter_event());
    assert_eq!(enter.magic_sig(), MagicSig { ty: MagicSigInfo::Enter, txid: [7u8; 32], event_idx: 3 });
    assert_eq!(e.clone().try_into_transact(), Err(e));
}

#[test]
fn transact_makes_transaction_with_magic_signature() {
    let mut t = make_transact_event();
    t.sender = [8u8; 20];
    t.data = vec![1, 2, 3];
    let e = ExtractedEvent { tx_hash: [7u8; 32], is_eip4844: false, log_index: 2, event: t };
    let (tx, sig) = e.make_transaction(5);
    assert_eq!(tx.chain_id, 519);
    assert_eq!(tx.nonce, 5);
    assert_eq!(tx.gas_limit, 21000);
    assert_eq!(tx.max_fee_per_gas, 1_000_000_000);
    assert_eq!(tx.max_priority_fee_per_gas, 0);
    assert_eq!(tx.input, vec![1, 2, 3]);
    assert_eq!(sig, MagicSig { ty: MagicSigInfo::Transact { sender: [8u8; 20] }, txid: [7u8; 32], event_idx: 2 });
}

// Extracts.

#[test]
fn host_events_default() {
    let events = HostEvents::default();
    assert!(events.submitted.is_none());
    assert!(events.enters.is_empty());
    assert!(events.transacts.is_empty());
    assert!(events.enter_tokens.is_empty());
}

#[test]
fn extracts_new() {
    let extracts = Extracts::new(1, 100, 1234567890, 519, 50);

    assert_eq!(extracts.host_chain_id, 1);
    assert_eq!(extracts.chain_id, 519);
    assert_eq!(extracts.ru_height, 50);
    assert!(!extracts.contains_block());
}

#[test]
fn extracts_empty() {
    let extracts = Extracts::empty(100, 1234567890);

    assert_eq!(extracts.host_chain_id, 0);
    assert_eq!(extracts.chain_id, 0);
    assert_eq!(extracts.ru_height, 0);
    assert!(!extracts.contains_block());
}

#[test]
fn extracts_contains_block_false_when_no_submitted() {
    let extracts = Extracts::new(1, 100, 1234567890, 519, 50);
    assert!(!extracts.contains_block());
}

#[test]
fn extracts_host_block_number() {
    let extracts = Extracts::new(1, 100, 1234567890, 519, 50);
    assert_eq!(extracts.host_block_number(), 100);
}

#[test]
fn extracts_host_block_timestamp() {
    let extracts = Extracts::new(1, 100, 1234567890, 519, 50);
    assert_eq!(extracts.host_block_timestamp(), 1234567890);
}

#[test]
fn extracts_transacts_empty() {
    let extracts = Extracts::new(1, 100, 1234567890, 519, 50);
    assert_eq!(extracts.transacts().len(), 0);
}

#[test]
fn extracts_enters_empty() {
    let extracts = Extracts::new(1, 100, 1234567890, 519, 50);
    assert_eq!(extracts.enters().len(), 0);
}

#[test]
fn extracts_enter_tokens_empty() {
    let extracts = Extracts::new(1, 100, 1234567890, 519, 50);
    assert_eq!(extracts.enter_tokens().len(), 0);
}

#[test]
fn extracts_aggregate_fills_default() {
    let extracts = Extracts::new(1, 100, 1234567890, 519, 50);
    let fills = extracts.aggregate_fills();
    let default_fills: Vec<Filled> = Vec::new();
    assert_eq!(format!("{:?}", fills), format!("{:?}", default_fills));
}

#[test]
fn extracts_ru_header_none() {
    let extracts = Extracts::new(1, 100, 1234567890, 519, 50);
    assert!(extracts.ru_header().is_none());
}

#[test]
fn extracts_deref() {
    let extracts = Extracts::new(1, 100, 1234567890, 519, 50);
    assert!(extracts.events.submitted.is_none());
}

#[test]
fn extracts_clone() {
    let extracts = Extracts::new(1, 100, 1234567890, 519, 50);
    let cloned = extracts.clone();
    assert_eq!(cloned.host_chain_id, extracts.host_chain_id);
    assert_eq!(cloned.chain_id, extracts.chain_id);
    assert_eq!(cloned.ru_height, extracts.ru_height);
}

#[test]
fn extracts_debug() {
    let extracts = Extracts::new(1, 100, 1234567890, 519, 50);
    let debug_str = format!("{:?}", extracts);
    assert!(debug_str.contains("Extracts"));
}

#[test]
fn host_events_debug() {
    let events = HostEvents::default();
    let debug_str = format!("{:?}", events);
    assert!(debug_str.contains("HostEvents"));
}

#[test]
fn extracts_ingest_groups_events() {
    let mut x = Extracts::new(1, 100, 5, 519, 50);
    let ev = |event| ExtractedEvent { tx_hash: [1u8; 32], is_eip4844: false, log_index: 0, event };
    x.ingest_event(ev(Events::Enter(make_enter_event())));
    x.ingest_event(ev(Events::Transact(make_transact_event())));
    x.ingest_event(ev(Events::Filled(make_filled_event())));
    x.ingest_event(ev(Events::BlockSubmitted(make_block_submitted_event())));
    x.ingest_event(ev(Events::EnterToken(make_enter_token_event())));
    assert_eq!(x.enters().len(), 1);
    assert_eq!(x.transacts().len(), 1);
    assert_eq!(x.aggregate_fills().len(), 1);
    assert_eq!(x.enter_tokens().len(), 1);
    assert!(x.contains_block());
}
