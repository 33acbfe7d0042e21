use signet_sdk::orders::{
    filter_orders, has_input_token, keep_item, has_output_chain, has_output_recipient, has_output_token,
    is_nonce_consumed, nonce_to_bitmap_position, not_expired_at, with_owner, Output, Permit2Error, PERMIT2,
    Permit2Batch, PermitBatchTransferFrom, SignedOrder, TokenPermissions,
};
use signet_sdk::preflight::{
    check_allowances, check_balances, check_signed_order, check_unsigned_order, nonce_available,
    order_nonce_consumed, order_nonce_word, signed_order_token_checks, sufficient_balance,
    token_approved, unsigned_order_token_checks, PreflightError, TokenCheck,
};
use signet_sdk::primitives::U256;
use std::cell::{Cell, RefCell};
use std::collections::HashSet;

type Address = [u8; 20];

fn u(x: u64) -> U256 {
    U256::from_u64(x)
}

fn shl1(n: u32) -> U256 {
    if n < 128 {
        U256 { hi: 0, lo: 1u128 << n }
    } else {
        U256 { hi: 1u128 << (n - 128), lo: 0 }
    }
}

fn or(a: U256, b: U256) -> U256 {
    U256 { hi: a.hi | b.hi, lo: a.lo | b.lo }
}

fn order_with(
    owner: Address,
    deadline: u64,
    permitted: Vec<TokenPermissions>,
    outputs: Vec<Output>,
) -> SignedOrder {
    SignedOrder::new(
        Permit2Batch {
            permit: PermitBatchTransferFrom { permitted, nonce: U256::zero(), deadline: u(deadline) },
            owner,
            signature: vec![0x1b; 65],
        },
        outputs,
    )
}

fn order_with_nonce(owner: Address, nonce: U256, permitted: Vec<TokenPermissions>) -> SignedOrder {
    SignedOrder::new(
        Permit2Batch {
            permit: PermitBatchTransferFrom { permitted, nonce, deadline: u(1) },
            owner,
            signature: vec![],
        },
        vec![],
    )
}

// Permit2 nonce bitmaps.

#[test]
fn nonce_0_consumed_when_bit_0_set() {
    let bitmap = u(1);
    assert!(is_nonce_consumed(bitmap, u(0)));
}

#[test]
fn nonce_0_not_consumed_when_bit_0_unset() {
    let bitmap = u(0);
    assert!(!is_nonce_consumed(bitmap, u(0)));
}

#[test]
fn nonce_255_consumed_when_last_bit_set() {
    let bitmap = shl1(255);
    assert!(is_nonce_consumed(bitmap, u(255)));
}

#[test]
fn nonce_255_not_consumed_when_last_bit_unset() {
    let max = U256::max();
    let bitmap = U256 { hi: max.hi ^ (1u128 << 127), lo: max.lo };
    assert!(!is_nonce_consumed(bitmap, u(255)));
}

#[test]
fn mid_range_nonce_consumed_among_other_bits() {
    let bitmap = or(u(0b1111), shl1(42));
    assert!(is_nonce_consumed(bitmap, u(42)));
}

#[test]
fn mid_range_nonce_not_consumed_when_only_neighbours_set() {
    let bitmap = or(shl1(41), shl1(43));
    assert!(!is_nonce_consumed(bitmap, u(42)));
}

#[test]
fn nonce_word_bits_ignored() {
    let bitmap = shl1(42);
    assert!(is_nonce_consumed(bitmap, u(0x12A)));
}

#[test]
fn test_nonce_to_bitmap_position() {
    assert_eq!(nonce_to_bitmap_position(U256::zero()), (U256::zero(), 0));
    assert_eq!(nonce_to_bitmap_position(u(255)), (U256::zero(), 255));
    assert_eq!(nonce_to_bitmap_position(u(256)), (u(1), 0));
    assert_eq!(nonce_to_bitmap_position(u(511)), (u(1), 255));
    assert_eq!(nonce_to_bitmap_position(u(0x0123456789ABCDEF)), (u(0x0123456789ABCD), 0xEF));
}

#[test]
fn test_bitmap_position_edge_cases() {
    let (word_pos, bit_pos) = nonce_to_bitmap_position(U256::zero());
    assert_eq!(word_pos, U256::zero());
    assert_eq!(bit_pos, 0);

    let (word_pos, bit_pos) = nonce_to_bitmap_position(u(u64::MAX));
    assert_eq!(word_pos, u(u64::MAX >> 8));
    assert_eq!(bit_pos, 255);

    let (word_pos_255, bit_pos_255) = nonce_to_bitmap_position(u(255));
    let (word_pos_256, bit_pos_256) = nonce_to_bitmap_position(u(256));
    assert_eq!(word_pos_255, U256::zero());
    assert_eq!(bit_pos_255, 255);
    assert_eq!(word_pos_256, u(1));
    assert_eq!(bit_pos_256, 0);
}

#[test]
fn bitmap_position_of_high_nonce() {
    let nonce = U256 { hi: 0xab, lo: 0x1234 };
    let (word_pos, bit_pos) = nonce_to_bitmap_position(nonce);
    assert_eq!(bit_pos, 0x34);
    assert_eq!(word_pos, U256 { hi: 0, lo: (0xabu128 << 120) | 0x12 });
}

#[test]
fn test_preflight_errors() {
    let insufficient_balance = PreflightError::InsufficientBalance { have: u(100), need: u(200) };
    assert!(insufficient_balance.to_string().contains("insufficient balance"));
    assert!(insufficient_balance.to_string().contains("100"));
    assert!(insufficient_balance.to_string().contains("200"));

    let insufficient_allowance = PreflightError::InsufficientAllowance { have: u(50), need: u(100) };
    assert!(insufficient_allowance.to_string().contains("insufficient allowance"));

    let nonce_consumed = PreflightError::NonceConsumed { word_pos: u(1), bit_pos: 42 };
    assert!(nonce_consumed.to_string().contains("nonce already consumed"));
    assert!(nonce_consumed.to_string().contains("word_pos=1"));
    assert!(nonce_consumed.to_string().contains("bit_pos=42"));
}

#[test]
fn preflight_error_messages_exact() {
    assert_eq!(
        PreflightError::InsufficientBalance { have: u(100), need: u(200) }.to_string(),
        "insufficient balance: have 100, need 200"
    );
    assert_eq!(
        PreflightError::NonceConsumed { word_pos: u(1), bit_pos: 42 }.to_string(),
        "nonce already consumed: word_pos=1, bit_pos=42"
    );
    assert_eq!(PreflightError::Provider("x".to_string()).to_string(), "provider error: x");
    assert_eq!(
        U256::max().to_string(),
        "115792089237316195423570985008687907853269984665640564039457584007913129639935"
    );
    assert_eq!(U256::zero().to_string(), "0");
}

#[test]
fn preflight_judgements() {
    assert_eq!(sufficient_balance(u(5), u(5)), Ok(()));
    assert_eq!(
        sufficient_balance(u(4), u(5)),
        Err(PreflightError::InsufficientBalance { have: u(4), need: u(5) })
    );
    assert_eq!(token_approved(u(9), u(5)), Ok(()));
    assert_eq!(
        token_approved(u(1), u(5)),
        Err(PreflightError::InsufficientAllowance { have: u(1), need: u(5) })
    );
    assert_eq!(nonce_available(u(0), u(300)), Ok(()));
    assert_eq!(
        nonce_available(shl1(44), u(300)),
        Err(PreflightError::NonceConsumed { word_pos: u(1), bit_pos: 44 })
    );
}

#[test]
fn signed_order_checks() {
    let owner = [0x11u8; 20];
    let ta = [0xaau8; 20];
    let tb = [0xbbu8; 20];
    let order = order_with_nonce(
        owner,
        u(300),
        vec![TokenPermissions { token: ta, amount: u(10) }, TokenPermissions { token: tb, amount: u(20) }],
    );
    let checks = signed_order_token_checks(&order);
    assert_eq!(
        checks,
        vec![
            TokenCheck { token: ta, user: owner, amount: u(10) },
            TokenCheck { token: tb, user: owner, amount: u(20) },
        ]
    );
    assert_eq!(order_nonce_word(&order), (owner, u(1)));
    assert!(order_nonce_consumed(&order, shl1(44)));
    assert!(!order_nonce_consumed(&order, shl1(43)));

    assert_eq!(check_signed_order(&order, &vec![u(10), u(20)], &vec![u(10), u(20)], u(0)), Ok(()));
    assert_eq!(
        check_signed_order(&order, &vec![u(10), u(19)], &vec![u(0), u(0)], shl1(44)),
        Err(PreflightError::InsufficientBalance { have: u(19), need: u(20) })
    );
    assert_eq!(
        check_signed_order(&order, &vec![u(10), u(20)], &vec![u(9), u(0)], shl1(44)),
        Err(PreflightError::InsufficientAllowance { have: u(9), need: u(10) })
    );
    assert_eq!(
        check_signed_order(&order, &vec![u(10), u(20)], &vec![u(10), u(20)], shl1(44)),
        Err(PreflightError::NonceConsumed { word_pos: u(1), bit_pos: 44 })
    );
}

#[test]
fn unsigned_order_checks() {
    let user = [0x22u8; 20];
    let inputs = vec![TokenPermissions { token: [1u8; 20], amount: u(3) }];
    assert_eq!(
        unsigned_order_token_checks(&inputs, user),
        vec![TokenCheck { token: [1u8; 20], user, amount: u(3) }]
    );
    assert_eq!(check_unsigned_order(&inputs, user, &vec![u(3)], &vec![u(3)]), Ok(()));
    assert_eq!(
        check_unsigned_order(&inputs, user, &vec![u(3)], &vec![u(2)]),
        Err(PreflightError::InsufficientAllowance { have: u(2), need: u(3) })
    );
    let checks = unsigned_order_token_checks(&inputs, user);
    assert_eq!(check_balances(&checks, &vec![u(0)]), Err(PreflightError::InsufficientBalance { have: u(0), need: u(3) }));
    assert_eq!(check_allowances(&checks, &vec![u(4)]), Ok(()));
}

// Predicates.

#[test]
fn not_expired_at_matches_validate_boundary() {
    let order = order_with([0u8; 20], 100, vec![], vec![]);
    assert!(not_expired_at(99, &order));
    assert!(not_expired_at(100, &order), "deadline equal to cutoff is still valid");
    assert!(!not_expired_at(101, &order));

    assert!(!order.is_expired_at(99));
    assert!(!order.is_expired_at(100));
    assert!(order.is_expired_at(101));
}

#[test]
fn not_expired_at_re_evaluates_each_call() {
    let order = order_with([0u8; 20], 100, vec![], vec![]);
    let now = Cell::new(99u64);
    let predicate = |o: &SignedOrder| not_expired_at(now.get(), o);

    assert!(predicate(&order));

    now.set(101);
    assert!(!predicate(&order));
}

#[test]
fn not_expired_at_saturates_u256_deadline_above_u64_max() {
    let order = SignedOrder::new(
        Permit2Batch {
            permit: PermitBatchTransferFrom {
                permitted: vec![],
                nonce: U256::zero(),
                deadline: U256::max(),
            },
            owner: [0u8; 20],
            signature: vec![0x1b; 65],
        },
        vec![],
    );

    assert!(not_expired_at(0, &order));
    assert!(not_expired_at(u64::MAX, &order));
    assert!(!order.is_expired_at(0));
    assert!(!order.is_expired_at(u64::MAX));
}

#[test]
fn output_predicates_match_any_output() {
    let token_a = [0xaau8; 20];
    let token_b = [0xbbu8; 20];
    let recipient = [0xccu8; 20];
    let zero = [0u8; 20];
    let order = order_with(
        zero,
        1,
        vec![],
        vec![
            Output { token: token_a, amount: U256::zero(), recipient, chain_id: 17001 },
            Output { token: token_b, amount: U256::zero(), recipient: zero, chain_id: 1 },
        ],
    );

    assert!(has_output_chain(17001, &order));
    assert!(has_output_chain(1, &order));
    assert!(!has_output_chain(2, &order));

    assert!(has_output_token(17001, token_a, &order));
    assert!(has_output_token(1, token_b, &order));
    assert!(!has_output_token(1, token_a, &order), "right token, wrong chain");
    assert!(!has_output_token(17001, token_b, &order), "right token, wrong chain");
    assert!(!has_output_token(17001, zero, &order));

    assert!(has_output_recipient(recipient, &order));
    assert!(has_output_recipient(zero, &order));
    assert!(!has_output_recipient([0xdeu8; 20], &order));
}

#[test]
fn input_token_matches_any_permitted_input() {
    let token_a = [0xaau8; 20];
    let token_b = [0xbbu8; 20];
    let order = order_with(
        [0u8; 20],
        1,
        vec![
            TokenPermissions { token: token_a, amount: U256::zero() },
            TokenPermissions { token: token_b, amount: U256::zero() },
        ],
        vec![],
    );

    assert!(has_input_token(token_a, &order));
    assert!(has_input_token(token_b, &order));
    assert!(!has_input_token([0u8; 20], &order));
}

#[test]
fn with_owner_matches_permit_owner() {
    let owner = [0x11u8; 20];
    let order = order_with(owner, 1, vec![], vec![]);
    assert!(with_owner(owner, &order));
    assert!(!with_owner([0u8; 20], &order));
}

#[test]
fn output_predicates_reject_order_with_no_outputs() {
    let order = order_with([0u8; 20], 1, vec![], vec![]);
    assert!(!has_output_chain(0, &order));
    assert!(!has_output_chain(1, &order));
    assert!(!has_output_token(0, [0u8; 20], &order));
    assert!(!has_output_recipient([0u8; 20], &order));
}

#[test]
fn input_token_rejects_order_with_no_permitted_inputs() {
    let order = order_with([0u8; 20], 1, vec![], vec![]);
    assert!(!has_input_token([0u8; 20], &order));
}

// Filtering.

#[test]
fn filter_orders_drops_failing_predicate_and_passes_errors() {
    let by_deadline = |deadline| order_with([0u8; 20], deadline, vec![], vec![]);
    let items: Vec<Result<SignedOrder, &'static str>> = vec![
        Ok(by_deadline(1)),
        Err("boom"),
        Ok(by_deadline(10)),
        Err("bang"),
        Ok(by_deadline(100)),
    ];

    let collected = filter_orders(items, |order: &SignedOrder| u(5).lt(&order.permit().permit.deadline));

    assert_eq!(collected.len(), 4);
    assert_eq!(collected[0].as_ref().unwrap_err(), &"boom");
    assert_eq!(collected[1].as_ref().unwrap().permit().permit.deadline, u(10));
    assert_eq!(collected[2].as_ref().unwrap_err(), &"bang");
    assert_eq!(collected[3].as_ref().unwrap().permit().permit.deadline, u(100));
}

#[test]
fn filter_orders_can_dedupe_with_stateful_predicate() {
    let owner_a = [0xa1u8; 20];
    let owner_b = [0xb2u8; 20];
    let make = |owner| order_with(owner, 1, vec![], vec![]);
    let items: Vec<Result<SignedOrder, ()>> =
        vec![Ok(make(owner_a)), Ok(make(owner_b)), Ok(make(owner_a)), Ok(make(owner_b))];

    let seen = RefCell::new(HashSet::new());
    let collected = filter_orders(items, |order: &SignedOrder| seen.borrow_mut().insert(order.permit().owner));

    assert_eq!(collected.len(), 2);
    assert_eq!(collected[0].as_ref().unwrap(), &make(owner_a));
    assert_eq!(collected[1].as_ref().unwrap(), &make(owner_b));
}

#[test]
fn filter_orders_works_with_predicate_helpers() {
    let target = [0x42u8; 20];
    let other = [0x01u8; 20];

    let matching = order_with(other, 1, vec![TokenPermissions { token: target, amount: U256::zero() }], vec![]);
    let non_matching =
        order_with(other, 1, vec![TokenPermissions { token: other, amount: U256::zero() }], vec![]);

    let items: Vec<Result<SignedOrder, &'static str>> = vec![
        Ok(matching.clone()),
        Err("error 1"),
        Ok(non_matching),
        Ok(matching.clone()),
        Err("error 2"),
    ];

    let collected = filter_orders(items, |o: &SignedOrder| has_input_token(target, o));

    assert_eq!(collected.len(), 4);
    assert_eq!(collected[0].as_ref().unwrap(), &matching);
    assert_eq!(collected[1].as_ref().unwrap_err(), &"error 1");
    assert_eq!(collected[2].as_ref().unwrap(), &matching);
    assert_eq!(collected[3].as_ref().unwrap_err(), &"error 2");
}

#[test]
fn filter_orders_composes_predicates() {
    let chain_id = 17001u32;
    let token = [0x42u8; 20];
    let other_token = [0x01u8; 20];

    let on_chain = |chain| Output { token, amount: U256::zero(), recipient: [0u8; 20], chain_id: chain };
    let with_input = |input| vec![TokenPermissions { token: input, amount: U256::zero() }];

    let matches_all = order_with([0u8; 20], 100, with_input(token), vec![on_chain(chain_id)]);
    let wrong_input = order_with([0u8; 20], 100, with_input(other_token), vec![on_chain(chain_id)]);
    let wrong_chain = order_with([0u8; 20], 100, with_input(token), vec![on_chain(1)]);
    let expired = order_with([0u8; 20], 50, with_input(token), vec![on_chain(chain_id)]);

    let items: Vec<Result<SignedOrder, ()>> =
        vec![Ok(matches_all.clone()), Ok(wrong_input), Ok(wrong_chain), Ok(expired)];

    let collected = filter_orders(items, |order: &SignedOrder| {
        not_expired_at(100, order) && has_input_token(token, order) && has_output_chain(chain_id, order)
    });

    assert_eq!(collected.len(), 1);
    assert_eq!(collected[0].as_ref().unwrap(), &matches_all);
}

#[test]
fn filter_orders_does_not_invoke_predicate_on_errors() {
    let order = order_with([0u8; 20], 1, vec![], vec![]);
    let items: Vec<Result<SignedOrder, &'static str>> =
        vec![Err("a"), Ok(order.clone()), Err("b"), Ok(order), Err("c")];

    let calls = Cell::new(0u32);
    let collected = filter_orders(items, |_: &SignedOrder| {
        calls.set(calls.get() + 1);
        true
    });

    assert_eq!(calls.get(), 2, "predicate should only run on Ok items");
    assert_eq!(collected.len(), 5, "all items should pass through when predicate returns true");
    assert_eq!(collected[0].as_ref().unwrap_err(), &"a");
    collected[1].as_ref().unwrap();
    assert_eq!(collected[2].as_ref().unwrap_err(), &"b");
    collected[3].as_ref().unwrap();
    assert_eq!(collected[4].as_ref().unwrap_err(), &"c");
}

#[test]
fn filter_orders_handles_empty_stream() {
    let items: Vec<Result<SignedOrder, ()>> = vec![];
    let collected = filter_orders(items, |_: &SignedOrder| true);
    assert!(collected.is_empty());
}

#[test]
fn filter_orders_handles_all_rejected() {
    let items: Vec<Result<SignedOrder, ()>> =
        (0..3u64).map(|deadline| Ok(order_with([0u8; 20], deadline, vec![], vec![]))).collect();
    let collected = filter_orders(items, |_: &SignedOrder| false);
    assert!(collected.is_empty());
}

#[test]
fn filter_orders_can_be_chained() {
    let token_a = [0xaau8; 20];
    let token_b = [0xbbu8; 20];
    let with_inputs = |tokens: Vec<Address>| {
        order_with(
            [0u8; 20],
            1,
            tokens.into_iter().map(|t| TokenPermissions { token: t, amount: U256::zero() }).collect(),
            vec![],
        )
    };

    let only_a = with_inputs(vec![token_a]);
    let both = with_inputs(vec![token_a, token_b]);
    let only_b = with_inputs(vec![token_b]);

    let items: Vec<Result<SignedOrder, ()>> = vec![Ok(only_a), Ok(both.clone()), Ok(only_b)];

    let first = filter_orders(items, |o: &SignedOrder| has_input_token(token_a, o));
    let collected = filter_orders(first, |o: &SignedOrder| has_input_token(token_b, o));

    assert_eq!(collected.len(), 1);
    assert_eq!(collected[0].as_ref().unwrap(), &both);
}

#[test]
fn permit2_error_message() {
    assert_eq!(Permit2Error::ContractCall("rpc down".to_string()).to_string(), "Permit2 nonceBitmap call failed");
}

#[test]
fn nonce_available_agrees_with_consumed() {
    for (bitmap, nonce) in [(shl1(3), u(3)), (shl1(3), u(4)), (u(0), u(259)), (shl1(3), u(259))] {
        assert_eq!(nonce_available(bitmap, nonce).is_ok(), !is_nonce_consumed(bitmap, nonce));
    }
}

#[test]
fn test_permit2_address_matches_types() {
    let expected: alloy::primitives::Address = "0x000000000022D473030F116dDEE9F6B43aC78BA3".parse().unwrap();
    assert_eq!(PERMIT2, expected.0 .0);
}

#[test]
fn keep_item_keeps_errors_and_accepted_orders() {
    assert!(keep_item(None));
    assert!(keep_item(Some(true)));
    assert!(!keep_item(Some(false)));
}

#[test]
fn two_filters_compose_into_one() {
    let ta = [0xaau8; 20];
    let tb = [0xbbu8; 20];
    let with = |tokens: Vec<Address>| {
        order_with([0u8; 20], 1, tokens.into_iter().map(|t| TokenPermissions { token: t, amount: U256::zero() }).collect(), vec![])
    };
    let items: Vec<Result<SignedOrder, &str>> =
        vec![Ok(with(vec![ta])), Err("e"), Ok(with(vec![ta, tb])), Ok(with(vec![tb]))];
    let twice = filter_orders(
        filter_orders(items.clone(), |o: &SignedOrder| has_input_token(ta, o)),
        |o: &SignedOrder| has_input_token(tb, o),
    );
    let once = filter_orders(items, |o: &SignedOrder| has_input_token(ta, o) && has_input_token(tb, o));
    assert_eq!(twice, once);
    assert_eq!(once.len(), 2);
}
