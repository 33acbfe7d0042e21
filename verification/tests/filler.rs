use signet_sdk::extract::SystemConstants;
use signet_sdk::fee_policy::{
    filled_envelope, plan_bundle, target_block, FeePolicyError, FeePolicySubmitter, FilledRequest,
    FillerControlFlow, RollupTx,
};
use signet_sdk::filler::{
    check_orders_to_fill, Filler, FillerError, FillerOptions, OrderSender, OrderSenderError,
    OrdersAndFills,
};
use signet_sdk::orders::{Permit2Batch, PermitBatchTransferFrom, SignedOrder};
use signet_sdk::primitives::U256;
use std::collections::HashMap;

fn constants() -> SystemConstants {
    SystemConstants {
        host_chain_id: 1,
        ru_chain_id: 519,
        host_deploy_height: 10,
        host_zenith: [1u8; 20],
        host_orders: [2u8; 20],
        host_transactor: [3u8; 20],
        host_passage: [4u8; 20],
        host_tokens: vec![[5u8; 20]],
    }
}

fn order(deadline: u64) -> SignedOrder {
    SignedOrder::new(
        Permit2Batch {
            permit: PermitBatchTransferFrom {
                permitted: vec![],
                nonce: U256::zero(),
                deadline: U256::from_u64(deadline),
            },
            owner: [0u8; 20],
            signature: vec![1, 2, 3],
        },
        vec![],
    )
}

#[test]
fn filler_options_default() {
    let opts = FillerOptions::default();
    assert!(opts.deadline_offset.is_none());
    assert!(opts.nonce.is_none());
}

#[test]
fn filler_options_new() {
    let opts = FillerOptions::new();
    assert!(opts.deadline_offset.is_none());
    assert!(opts.nonce.is_none());
}

#[test]
fn filler_options_with_deadline_offset() {
    let opts = FillerOptions::new().with_deadline_offset(60);
    assert_eq!(opts.deadline_offset, Some(60));
    assert!(opts.nonce.is_none());
}

#[test]
fn filler_options_with_nonce() {
    let opts = FillerOptions::new().with_nonce(12345);
    assert!(opts.deadline_offset.is_none());
    assert_eq!(opts.nonce, Some(12345));
}

#[test]
fn filler_options_chained() {
    let opts = FillerOptions::new().with_deadline_offset(30).with_nonce(999);
    assert_eq!(opts.deadline_offset, Some(30));
    assert_eq!(opts.nonce, Some(999));
}

#[test]
fn filler_options_setters_commute_on_values() {
    let a = FillerOptions::new().with_deadline_offset(30).with_nonce(999);
    let b = FillerOptions::new().with_nonce(999).with_deadline_offset(30);
    assert_eq!(a, b);
}

#[test]
fn filler_options_fill_deadline() {
    assert_eq!(FillerOptions::new().fill_deadline(1_000), None);
    assert_eq!(FillerOptions::new().with_deadline_offset(12).fill_deadline(1_000), Some(1_012));
}

#[test]
fn filler_error_display_no_orders() {
    let err = FillerError::NoOrders;
    assert_eq!(err.to_string(), "no orders to fill");
}

#[test]
fn filler_error_messages() {
    assert_eq!(FillerError::Source("x".to_string()).to_string(), "failed to get orders: x");
    assert_eq!(FillerError::Signing("y".to_string()).to_string(), "failed to sign fills: y");
    assert_eq!(FillerError::Submission("z".to_string()).to_string(), "failed to submit fills: z");
}

#[test]
fn orders_and_fills_accessors() {
    let orders = vec![];
    let fills: HashMap<u64, u8> = HashMap::new();
    let signer_address = [0x42u8; 20];

    let oaf = OrdersAndFills::new(orders, fills, signer_address);

    assert!(oaf.orders().is_empty());
    assert!(oaf.fills().is_empty());
    assert_eq!(oaf.signer_address(), [0x42u8; 20]);
}

#[test]
fn check_orders_to_fill_rejects_empty() {
    assert_eq!(check_orders_to_fill(&vec![]), Err(FillerError::NoOrders));
    assert_eq!(check_orders_to_fill(&vec![order(1)]), Ok(()));
}

#[test]
fn filler_getters() {
    let filler = Filler::new(1u8, 2u16, 3u32, constants(), FillerOptions::new().with_nonce(7));
    assert_eq!(*filler.signer(), 1u8);
    assert_eq!(*filler.order_source(), 2u16);
    assert_eq!(*filler.submitter(), 3u32);
    assert_eq!(filler.constants().ru_chain_id, 519);
    assert_eq!(filler.options().nonce, Some(7));
}

#[test]
fn fee_policy_error_display_no_fills() {
    let err = FeePolicyError::NoFills;
    assert_eq!(err.to_string(), "no fills provided for submission");
}

#[test]
fn fee_policy_error_display_incomplete_transaction() {
    let err = FeePolicyError::IncompleteTransaction(vec![("gas", vec!["gas_limit"])]);
    assert!(err.to_string().contains("missing required properties"));
    assert_eq!(
        err.to_string(),
        "transaction missing required properties: [(\"gas\", [\"gas_limit\"])]"
    );
}

#[test]
fn fee_policy_error_other_messages() {
    assert_eq!(FeePolicyError::Rpc("down".to_string()).to_string(), "RPC error: down");
    assert_eq!(
        FeePolicyError::Submission("nope".to_string()).to_string(),
        "failed to submit bundle: nope"
    );
}

#[test]
fn fee_policy_error_from_filler_control_flow_missing() {
    let missing = vec![("nonce", vec!["nonce"])];
    let control_flow = FillerControlFlow::Missing(missing.clone());
    let err = FeePolicyError::from_control_flow(control_flow);
    match err {
        FeePolicyError::IncompleteTransaction(m) => assert_eq!(m, missing),
        _ => panic!("expected IncompleteTransaction"),
    }
}

#[test]
fn fee_policy_error_from_filler_control_flow_finished() {
    let control_flow = FillerControlFlow::Finished;
    let err = FeePolicyError::from_control_flow(control_flow);
    match err {
        FeePolicyError::IncompleteTransaction(m) => assert!(m.is_empty()),
        _ => panic!("expected IncompleteTransaction"),
    }
}

#[test]
fn fee_policy_error_from_filler_control_flow_ready() {
    let control_flow = FillerControlFlow::Ready;
    let err = FeePolicyError::from_control_flow(control_flow);
    match err {
        FeePolicyError::IncompleteTransaction(m) => assert!(m.is_empty()),
        _ => panic!("expected IncompleteTransaction"),
    }
}

#[test]
fn filled_envelope_outcomes() {
    assert_eq!(filled_envelope(FilledRequest::Envelope(5u8)), Ok(5u8));
    let missing = vec![("gas", vec!["gas_limit"])];
    assert_eq!(
        filled_envelope::<u8>(FilledRequest::Builder(FillerControlFlow::Missing(missing.clone()))),
        Err(FeePolicyError::IncompleteTransaction(missing))
    );
    assert_eq!(
        filled_envelope::<u8>(FilledRequest::Builder(FillerControlFlow::Ready)),
        Err(FeePolicyError::IncompleteTransaction(vec![]))
    );
}

#[test]
fn plan_bundle_requires_fills() {
    let oaf: OrdersAndFills<&str> = OrdersAndFills::new(vec![order(1)], HashMap::new(), [0u8; 20]);
    assert!(matches!(plan_bundle(&oaf, 519, 1), Err(FeePolicyError::NoFills)));
}

#[test]
fn plan_bundle_orders_rollup_fill_first() {
    let mut fills = HashMap::new();
    fills.insert(519u64, "ru fill");
    fills.insert(1u64, "host fill");
    let oaf = OrdersAndFills::new(vec![order(1), order(2)], fills, [0u8; 20]);
    let plan = plan_bundle(&oaf, 519, 1).unwrap();
    assert_eq!(plan.rollup.len(), 3);
    assert!(matches!(plan.rollup[0], RollupTx::Fill(f) if *f == "ru fill"));
    assert!(matches!(plan.rollup[1], RollupTx::Initiate(o) if *o == order(1)));
    assert!(matches!(plan.rollup[2], RollupTx::Initiate(o) if *o == order(2)));
    assert_eq!(plan.host, Some(&"host fill"));
}

#[test]
fn plan_bundle_without_rollup_fill() {
    let mut fills = HashMap::new();
    fills.insert(1u64, "host fill");
    let oaf = OrdersAndFills::new(vec![order(3)], fills, [0u8; 20]);
    let plan = plan_bundle(&oaf, 519, 1).unwrap();
    assert_eq!(plan.rollup.len(), 1);
    assert!(matches!(plan.rollup[0], RollupTx::Initiate(o) if *o == order(3)));
    assert_eq!(plan.host, Some(&"host fill"));
}

#[test]
fn target_block_is_next() {
    assert_eq!(target_block(41), 42);
}

#[test]
fn fee_policy_submitter_getters() {
    let s = FeePolicySubmitter::new(1u8, 2u8, 3u8, constants());
    assert_eq!(*s.ru_provider(), 1);
    assert_eq!(*s.host_provider(), 2);
    assert_eq!(*s.submitter(), 3);
    assert_eq!(s.constants().host_chain_id, 1);
}

#[test]
fn order_sender_getters_and_errors() {
    let sender = OrderSender::new(1u8, 2u8, constants());
    assert_eq!(*sender.signer(), 1);
    assert_eq!(*sender.submitter(), 2);
    assert_eq!(sender.constants().host_deploy_height, 10);
    assert_eq!(OrderSenderError::Signing("s".to_string()).to_string(), "order signing error: s");
    assert_eq!(OrderSenderError::Submission("t".to_string()).to_string(), "order submission error: t");
}

#[test]
fn fill_with_empty_orders_returns_error() {
    let result = check_orders_to_fill(&vec![]);
    assert!(matches!(result, Err(FillerError::NoOrders)));
}
