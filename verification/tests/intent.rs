use shinobi_solver::eip7683::MandateOutput;
use shinobi_solver::intent::ShinobiIntent;
use shinobi_solver::primitives::{Address, U256};

fn sample_output() -> MandateOutput {
    MandateOutput {
        oracle: [0u8; 32],
        settler: [0u8; 32],
        chain_id: U256::from(42161),
        token: [0u8; 32],
        amount: U256::from(900),
        recipient: [0u8; 32],
        call: Vec::new(),
        context: Vec::new(),
    }
}

fn sample_intent() -> ShinobiIntent {
    ShinobiIntent {
        user: Address::from([1u8; 20]),
        nonce: U256::from(1),
        origin_chain_id: 1,
        expires: 2000000000,
        fill_deadline: 1900000000,
        fill_oracle: Address::from([2u8; 20]),
        inputs: vec![[U256::from(0), U256::from(1000)]],
        outputs: vec![sample_output()],
        intent_oracle: Address::from([3u8; 20]),
        refund_calldata: Vec::new(),
    }
}

fn create_test_intent() -> ShinobiIntent {
    ShinobiIntent {
        user: Address::from([1u8; 20]),
        nonce: U256::from(123),
        origin_chain_id: 1,
        expires: 2000000000,
        fill_deadline: 1900000000,
        fill_oracle: Address::from([2u8; 20]),
        inputs: vec![[U256::from(0), U256::from(1000000000000000000u64)]],
        outputs: vec![MandateOutput {
            oracle: [3u8; 32],
            settler: [4u8; 32],
            chain_id: U256::from(42161),
            token: [0u8; 32], // Native ETH
            amount: U256::from(900000000000000000u64),
            recipient: [5u8; 32],
            call: Vec::new(),
            context: Vec::new(),
        }],
        intent_oracle: Address::from([6u8; 20]),
        refund_calldata: Vec::new(),
    }
}

/// An intent that uses every field: two inputs beyond 128 bits, two outputs, calls and a refund.
fn full_intent() -> ShinobiIntent {
    let mut intent = create_test_intent();
    intent.origin_chain_id = 42161;
    intent.inputs = vec![
        [U256::from(5), U256::from(7)],
        [U256 { hi: 1u128 << 127, lo: 1 }, U256 { hi: 1, lo: 0 }],
    ];
    let mut first = intent.outputs[0].clone();
    first.chain_id = U256::from(10);
    first.call = vec![0x12, 0x34];
    first.context = vec![0xaa; 33];
    let mut second = intent.outputs[0].clone();
    second.token = [0xab; 32];
    intent.outputs = vec![first, second];
    intent.refund_calldata = vec![0xde, 0xad, 0xbe, 0xef];
    intent
}

#[test]
fn test_order_identifier_consistency() {
    let intent = ShinobiIntent {
        user: Address::from([1u8; 20]),
        nonce: U256::from(123),
        origin_chain_id: 1,
        expires: 2000000000,
        fill_deadline: 1900000000,
        fill_oracle: Address::from([2u8; 20]),
        inputs: vec![[U256::from(0), U256::from(1000000000000000000u64)]],
        outputs: vec![MandateOutput {
            oracle: [3u8; 32],
            settler: [4u8; 32],
            chain_id: U256::from(42161),
            token: [0u8; 32], // Native ETH
            amount: U256::from(900000000000000000u64),
            recipient: [5u8; 32],
            call: Vec::new(),
            context: Vec::new(),
        }],
        intent_oracle: Address::from([6u8; 20]),
        refund_calldata: Vec::new(),
    };

    let order_id = intent.order_identifier();
    // Order ID should be deterministic
    let order_id_2 = intent.order_identifier();
    assert_eq!(order_id, order_id_2);

    // Should be 32 bytes
    assert_eq!(order_id.len(), 32);
}

#[test]
fn test_validation() {
    let valid_intent = ShinobiIntent {
        user: Address::from([1u8; 20]),
        nonce: U256::from(1),
        origin_chain_id: 1,
        expires: 2000000000,
        fill_deadline: 1900000000,
        fill_oracle: Address::from([2u8; 20]),
        inputs: vec![[U256::from(0), U256::from(1000)]],
        outputs: vec![MandateOutput {
            oracle: [0u8; 32],
            settler: [0u8; 32],
            chain_id: U256::from(42161),
            token: [0u8; 32],
            amount: U256::from(900),
            recipient: [0u8; 32],
            call: Vec::new(),
            context: Vec::new(),
        }],
        intent_oracle: Address::from([3u8; 20]),
        refund_calldata: Vec::new(),
    };

    assert!(valid_intent.validate().is_ok());

    // Test invalid user
    let mut invalid = valid_intent.clone();
    invalid.user = Address::zero();
    assert!(invalid.validate().is_err());

    // Test no inputs
    let mut invalid = valid_intent.clone();
    invalid.inputs = vec![];
    assert!(invalid.validate().is_err());

    // Test no outputs
    let mut invalid = valid_intent.clone();
    invalid.outputs = vec![];
    assert!(invalid.validate().is_err());

    // Test invalid intent oracle
    let mut invalid = valid_intent.clone();
    invalid.intent_oracle = Address::zero();
    assert!(invalid.validate().is_err());

    // Test invalid fill oracle
    let mut invalid = valid_intent.clone();
    invalid.fill_oracle = Address::zero();
    assert!(invalid.validate().is_err());
}

#[test]
fn test_withdrawal_deposit_detection() {
    let withdrawal = sample_intent();

    assert!(withdrawal.is_withdrawal());
    assert!(!withdrawal.is_deposit());

    let deposit = ShinobiIntent {
        origin_chain_id: 42161, // Arbitrum
        ..withdrawal.clone()
    };

    assert!(!deposit.is_withdrawal());
    assert!(deposit.is_deposit());
}

#[test]
fn intent_test_native_eth_detection() {
    let eth_intent = sample_intent();

    assert!(eth_intent.is_native_eth_output());

    let erc20_intent = ShinobiIntent {
        outputs: vec![MandateOutput {
            token: [0xAAu8; 32], // ERC20 token
            ..eth_intent.outputs[0].clone()
        }],
        ..eth_intent.clone()
    };

    assert!(!erc20_intent.is_native_eth_output());
}

#[test]
fn order_identifier_of_known_intents() {
    assert_eq!(
        hex::encode(create_test_intent().order_identifier()),
        "d361a23d50d764f8b00157e1db1a9ec56fa7ed191e75741fcbaa8e3e993fc780"
    );
    assert_eq!(
        hex::encode(full_intent().order_identifier()),
        "e23aedf5e179c59f3b516f4cd4691afbec586f5de6b73240d0b71e59566886f9"
    );
}

#[test]
fn order_identifier_depends_on_every_field() {
    let base = full_intent();
    let mut changed: Vec<ShinobiIntent> = Vec::new();
    for _ in 0..12 {
        changed.push(base.clone());
    }
    changed[0].user = Address::from([9u8; 20]);
    changed[1].nonce = U256::from(124);
    changed[2].origin_chain_id = 1;
    changed[3].expires = 1;
    changed[4].fill_deadline = 1;
    changed[5].fill_oracle = Address::from([9u8; 20]);
    changed[6].inputs[0][0] = U256::from(6);
    changed[7].inputs.pop();
    changed[8].outputs[1].amount = U256::from(1);
    changed[9].outputs[0].call = Vec::new();
    changed[10].intent_oracle = Address::from([9u8; 20]);
    changed[11].refund_calldata = Vec::new();
    let mut exchanged = base.clone();
    exchanged.fill_oracle = base.intent_oracle;
    exchanged.intent_oracle = base.fill_oracle;
    changed.push(exchanged);
    let mut reordered = base.clone();
    reordered.outputs.swap(0, 1);
    changed.push(reordered);
    let mut reordered = base.clone();
    reordered.inputs.swap(0, 1);
    changed.push(reordered);
    let mut context = base.clone();
    context.outputs[1].context = vec![0];
    changed.push(context);
    for other in &changed {
        assert_ne!(base.order_identifier(), other.order_identifier());
    }
}

#[test]
fn validation_messages() {
    let valid = sample_intent();
    assert_eq!(valid.validate(), Ok(()));

    let mut bad = valid.clone();
    bad.fill_oracle = Address::zero();
    assert_eq!(bad.validate(), Err("Invalid fill oracle: zero address".to_string()));
    bad.intent_oracle = Address::zero();
    assert_eq!(bad.validate(), Err("Invalid intent oracle: zero address".to_string()));
    bad.outputs = vec![];
    assert_eq!(
        bad.validate(),
        Err("Invalid outputs: must have at least one output".to_string())
    );
    bad.inputs = vec![];
    assert_eq!(bad.validate(), Err("Invalid inputs: must have at least one input".to_string()));
    bad.user = Address::zero();
    assert_eq!(bad.validate(), Err("Invalid user: zero address".to_string()));
}

#[test]
fn destination_and_amount_come_from_the_first_output() {
    let intent = full_intent();
    assert_eq!(intent.destination_chain_id(), Some(10));
    assert_eq!(intent.output_amount(), Some(U256::from(900000000000000000u64)));
    assert!(intent.is_native_eth_output());
    assert_eq!(intent.destination_chain_ids(), vec![10, 42161]);

    let mut empty = intent.clone();
    empty.outputs = vec![];
    assert_eq!(empty.destination_chain_id(), None);
    assert_eq!(empty.output_amount(), None);
    assert!(!empty.is_native_eth_output());
    assert!(empty.destination_chain_ids().is_empty());
}

#[test]
fn chain_identifiers_that_do_not_fit_read_as_zero() {
    let mut intent = full_intent();
    intent.outputs[0].chain_id = U256 { hi: 0, lo: u64::MAX as u128 + 1 };
    intent.outputs[1].chain_id = U256::from(u64::MAX);
    assert_eq!(intent.destination_chain_ids(), vec![0, u64::MAX]);
    assert_eq!(intent.parse_requested_outputs()[0].asset.chain_id, 0);
    assert_eq!(intent.parse_requested_outputs()[1].asset.chain_id, u64::MAX);
}

#[test]
fn available_inputs_are_on_the_origin_chain() {
    let mut intent = full_intent();
    // 0x0102..14 as a token number, and native ETH.
    let mut token_word = [0u8; 32];
    for i in 0..20 {
        token_word[12 + i] = i as u8 + 1;
    }
    intent.inputs = vec![
        [U256::from_be_bytes(&token_word), U256::from(77)],
        [U256::from(0), U256::from(78)],
    ];
    let inputs = intent.parse_available_inputs();
    assert_eq!(inputs.len(), 2);
    assert_eq!(inputs[0].user.chain_id, 42161);
    assert_eq!(inputs[0].user.address.0, vec![1u8; 20]);
    assert_eq!(inputs[0].asset.chain_id, 42161);
    assert_eq!(inputs[0].asset.address.0, (1u8..=20).collect::<Vec<u8>>());
    assert_eq!(inputs[0].amount, U256::from(77));
    assert_eq!(inputs[0].lock, None);
    assert_eq!(inputs[1].asset.address.0, vec![0u8; 20]);
    assert_eq!(inputs[1].amount, U256::from(78));
}

#[test]
fn requested_outputs_carry_calldata_without_prefix() {
    let intent = full_intent();
    let outputs = intent.parse_requested_outputs();
    assert_eq!(outputs.len(), 2);
    assert_eq!(outputs[0].receiver.chain_id, 10);
    assert_eq!(outputs[0].receiver.address.0, vec![5u8; 20]);
    assert_eq!(outputs[0].asset.address.0, vec![0u8; 20]);
    assert_eq!(outputs[0].amount, U256::from(900000000000000000u64));
    assert_eq!(outputs[0].calldata, Some("1234".to_string()));
    assert_eq!(outputs[1].asset.address.0, vec![0xab; 20]);
    assert_eq!(outputs[1].calldata, None);
}

#[test]
fn lock_type_oracle_and_origin() {
    let intent = create_test_intent();
    assert_eq!(intent.parse_lock_type(), Some("native_escrow".to_string()));
    assert_eq!(intent.input_oracle(), format!("0x{}", "02".repeat(20)));
    assert_eq!(intent.origin_chain_id(), 1);
}
