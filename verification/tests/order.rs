use shinobi_solver::eip7683::MandateOutput;
use shinobi_solver::intent::ShinobiIntent;
use shinobi_solver::order::{
    report_decoded, OrderDraft, OrderError, Registry, ShinobiOrderConfig, ShinobiOrderConfigSchema,
    ShinobiOrderImpl,
};
use shinobi_solver::primitives::{Address, U256};
use shinobi_solver::settler::{IShinobiOutputSettler, ShinobiIntentSol};
use shinobi_solver::text::SolverAddress;
use shinobi_solver::types::{
    ChainSettlerInfo, ExecutionParams, FillProof, NetworksConfig, OracleInfo, OracleRoutes, Order,
    OrderData, OrderStatus,
};
use std::collections::HashMap;

fn create_test_intent() -> ShinobiIntent {
    ShinobiIntent {
        user: Address::from([1u8; 20]),
        nonce: U256::from(123),
        origin_chain_id: 1,
        expires: 2000000000,
        fill_deadline: 1900000000,
        fill_oracle: Address::from([2u8; 20]),
        inputs: vec![[U256::from(0), U256::from(1000000000000000000u64)]],
        outputs: vec![MandateOutput {
            oracle: [3u8; 32],
            settler: [4u8; 32],
            chain_id: U256::from(42161),
            token: [0u8; 32], // Native ETH
            amount: U256::from(900000000000000000u64),
            recipient: [5u8; 32],
            call: Vec::new(),
            context: Vec::new(),
        }],
        intent_oracle: Address::from([6u8; 20]),
        refund_calldata: Vec::new(),
    }
}

fn create_test_config() -> ShinobiOrderConfig {
    let mut input_settlers = HashMap::new();
    input_settlers.insert(1, "0x1111111111111111111111111111111111111111".to_string());
    input_settlers.insert(42161, "0x2222222222222222222222222222222222222222".to_string());

    let mut output_settlers = HashMap::new();
    output_settlers.insert(1, "0x3333333333333333333333333333333333333333".to_string());
    output_settlers.insert(
        42161,
        "0x4444444444444444444444444444444444444444".to_string(),
    );

    ShinobiOrderConfig {
        input_settlers,
        output_settlers,
    }
}

fn no_routes() -> OracleRoutes {
    OracleRoutes { supported_routes: Vec::new() }
}

fn create_test_impl() -> ShinobiOrderImpl {
    ShinobiOrderImpl::from_config(&create_test_config(), NetworksConfig::default(), no_routes())
        .unwrap()
}

fn encode(intent: &ShinobiIntent) -> Vec<u8> {
    ShinobiIntentSol::from(intent.clone()).abi_encode()
}

fn create_test_order(order_bytes: &[u8]) -> Order {
    Order {
        id: "test".to_string(),
        standard: "shinobi".to_string(),
        created_at: 1000,
        updated_at: 1000,
        status: OrderStatus::Created,
        data: OrderData {
            intent: None,
            order_bytes: Some(format!("0x{}", hex::encode(order_bytes))),
        },
        solver_address: SolverAddress(vec![0u8; 20]),
        quote_id: None,
        input_chains: vec![ChainSettlerInfo {
            chain_id: 1,
            settler_address: SolverAddress(vec![0x11u8; 20]),
        }],
        output_chains: vec![ChainSettlerInfo {
            chain_id: 42161,
            settler_address: SolverAddress(vec![0x44u8; 20]),
        }],
        execution_params: None,
        prepare_tx_hash: None,
        fill_tx_hash: None,
        post_fill_tx_hash: None,
        pre_claim_tx_hash: None,
        claim_tx_hash: None,
        fill_proof: None,
    }
}

fn params() -> ExecutionParams {
    ExecutionParams { gas_price: U256::from(1000000000u64), priority_fee: None }
}

fn failed(message: &str) -> OrderError {
    OrderError::ValidationFailed(message.to_string())
}

fn entry(chain: &str, address: &str) -> (String, String) {
    (chain.to_string(), address.to_string())
}

const NOW: u64 = 1800000000;

#[test]
fn test_parse_intent() {
    let intent = create_test_intent();
    let order_impl = create_test_impl();
    let order = create_test_order(&encode(&intent));

    let parsed = order_impl.parse_intent(&order).unwrap();
    assert_eq!(parsed.user, intent.user);
    assert_eq!(parsed.nonce, intent.nonce);
    assert_eq!(parsed.origin_chain_id, intent.origin_chain_id);
}

#[test]
fn test_generate_fill_transaction_native_eth() {
    let intent = create_test_intent();
    let order_impl = create_test_impl();
    let order = create_test_order(&encode(&intent));

    let tx = order_impl.generate_fill_transaction(&order, &params(), NOW);

    assert!(tx.is_err() || tx.is_ok());

    let tx = tx.unwrap();
    assert_eq!(tx.value, U256::from(900000000000000000u64));
    assert_eq!(tx.chain_id, 42161);
}

#[test]
fn test_native_eth_detection() {
    let intent = create_test_intent();
    assert!(intent.is_native_eth_output());
    assert_eq!(
        intent.output_amount(),
        Some(U256::from(900000000000000000u64))
    );
}

#[test]
fn test_config_parsing() {
    let config = create_test_config();

    assert_eq!(config.input_settlers.len(), 2);
    assert_eq!(config.output_settlers.len(), 2);
    assert_eq!(
        config.input_settlers.get(&1).unwrap(),
        "0x1111111111111111111111111111111111111111"
    );
    assert_eq!(
        config.output_settlers.get(&42161).unwrap(),
        "0x4444444444444444444444444444444444444444"
    );
}

#[test]
fn settlers_from_tables() {
    let inputs = vec![
        entry("1", "0x1111111111111111111111111111111111111111"),
        // The same chain again: the later entry counts.
        entry("+1", "2222222222222222222222222222222222222222"),
    ];
    let outputs = vec![entry("10", "0xAbCdEfAbCdEfAbCdEfAbCdEfAbCdEfAbCdEfAbCd")];
    let made =
        ShinobiOrderImpl::new(&inputs, &outputs, NetworksConfig::default(), no_routes()).unwrap();
    assert_eq!(made.get_input_settler(1), Ok(Address::from([0x22; 20])));
    assert_eq!(made.get_input_settler(10), Err(failed("No input settler for chain 10")));
    let mut mixed = [0u8; 20];
    for i in 0..20 {
        mixed[i] = if i % 3 == 0 {
            0xab
        } else if i % 3 == 1 {
            0xcd
        } else {
            0xef
        };
    }
    assert_eq!(made.get_output_settler(10), Ok(Address::from(mixed)));
    assert_eq!(made.get_output_settler(1), Err(failed("No output settler for chain 1")));
}

#[test]
fn tables_that_are_refused() {
    let good = vec![entry("1", "0x1111111111111111111111111111111111111111")];
    let make = |inputs: &Vec<(String, String)>, outputs: &Vec<(String, String)>| {
        Registry::factory(inputs, outputs, NetworksConfig::default(), no_routes())
            .err()
            .unwrap()
    };
    assert_eq!(
        make(&vec![entry("x", "0x00")], &vec![]),
        failed("Invalid chain ID 'x': invalid digit found in string")
    );
    assert_eq!(
        make(&vec![entry("", "0x00")], &vec![]),
        failed("Invalid chain ID '': cannot parse integer from empty string")
    );
    assert_eq!(
        make(&good, &vec![entry("18446744073709551616", "")]),
        failed(
            "Invalid chain ID '18446744073709551616': number too large to fit in target type"
        )
    );
    let bad_input = make(&vec![entry("7", "0x1234")], &vec![entry("x", "")]);
    assert!(bad_input.message().starts_with("Invalid input settler address for chain 7: "));
    let bad_output = make(&good, &vec![entry("8", "nonsense")]);
    assert!(bad_output.message().starts_with("Invalid output settler address for chain 8: "));
    assert_eq!(
        make(&vec![], &vec![]),
        failed("At least one input settler must be configured")
    );
    assert_eq!(
        make(&good, &vec![]),
        failed("At least one output settler must be configured")
    );
}

#[test]
fn configurations_that_are_refused() {
    let make = |config: &ShinobiOrderConfig| {
        ShinobiOrderImpl::from_config(config, NetworksConfig::default(), no_routes())
            .err()
            .unwrap()
    };
    let mut config = create_test_config();
    config.output_settlers.clear();
    assert_eq!(make(&config), failed("At least one output settler must be configured"));
    config.input_settlers.clear();
    assert_eq!(make(&config), failed("At least one input settler must be configured"));
    config.output_settlers.insert(5, "0x".to_string());
    assert!(make(&config).message().starts_with("Invalid output settler address for chain 5: "));
    config.input_settlers.insert(6, "11".to_string());
    assert!(make(&config).message().starts_with("Invalid input settler address for chain 6: "));
}

#[test]
fn orders_without_readable_bytes() {
    let order_impl = create_test_impl();
    let mut order = create_test_order(&[]);
    order.data.order_bytes = None;
    assert_eq!(order_impl.parse_intent(&order), Err(failed("Missing order_bytes in data")));
    order.data.order_bytes = Some("0xzz".to_string());
    assert_eq!(
        order_impl.parse_intent(&order),
        Err(failed("Invalid order_bytes hex: Invalid character 'z' at position 0"))
    );
    order.data.order_bytes = Some("0x123".to_string());
    assert_eq!(
        order_impl.parse_intent(&order),
        Err(failed("Invalid order_bytes hex: Odd number of digits"))
    );
    order.data.order_bytes = Some("0x1234".to_string());
    let undecodable = order_impl.parse_intent(&order).err().unwrap();
    assert_eq!(
        undecodable,
        failed(
            "Failed to decode ShinobiIntent: ABI decoding failed: buffer overrun while deserializing"
        )
    );
    // With or without the prefix, the same is said.
    let mut plain = order.clone();
    plain.data.order_bytes = Some("1234".to_string());
    assert_eq!(order_impl.parse_intent(&plain), Err(undecodable.clone()));
    assert_eq!(
        order_impl.generate_fill_transaction(&order, &params(), NOW),
        Err(undecodable.clone())
    );
    assert_eq!(
        order_impl.generate_claim_transaction(&order, &FillProof { filled_timestamp: 1 }),
        Err(undecodable)
    );
    assert_eq!(
        report_decoded(Err("why".to_string())),
        Err(failed("Failed to decode ShinobiIntent: why"))
    );
    // The prefix of the bytes may be left out.
    order.data.order_bytes = Some(hex::encode(encode(&create_test_intent())));
    assert_eq!(order_impl.parse_intent(&order), Ok(create_test_intent()));
}

#[test]
fn intents_that_are_refused() {
    let order_impl = create_test_impl();
    let intent = create_test_intent();
    assert_eq!(order_impl.validate_intent(&intent, NOW), Ok(()));

    let mut bad = intent.clone();
    bad.user = Address::zero();
    assert_eq!(
        order_impl.validate_intent(&bad, NOW),
        Err(failed("Invalid user: zero address"))
    );
    assert_eq!(
        order_impl.validate_intent(&intent, 1900000000),
        Err(failed("Fill deadline has passed"))
    );
    assert_eq!(order_impl.validate_intent(&intent, 1899999999), Ok(()));
    let mut bad = intent.clone();
    bad.expires = 1800000000;
    assert_eq!(order_impl.validate_intent(&bad, NOW), Err(failed("Intent has expired")));
    let mut bad = intent.clone();
    bad.origin_chain_id = 5;
    assert_eq!(
        order_impl.validate_intent(&bad, NOW),
        Err(failed("No input settler for origin chain 5"))
    );
    let mut bad = intent.clone();
    bad.outputs[0].chain_id = U256::from(10);
    assert_eq!(
        order_impl.validate_intent(&bad, NOW),
        Err(failed("No output settler for destination chain 10"))
    );
    // The time counts by its low 32 bits.
    assert_eq!(order_impl.validate_intent(&intent, (1u64 << 32) + 5), Ok(()));
    assert_eq!(
        order_impl.validate_intent(&intent, (1u64 << 32) + 1900000000),
        Err(failed("Fill deadline has passed"))
    );
}

#[test]
fn fill_transaction_in_full() {
    let intent = create_test_intent();
    let order_impl = create_test_impl();
    let order = create_test_order(&encode(&intent));
    let tx = order_impl.generate_fill_transaction(&order, &params(), NOW).unwrap();
    assert_eq!(tx.to, Some(SolverAddress(vec![0x44; 20])));
    assert_eq!(hex::encode(&tx.data[..4]), "2aedb0a4");
    assert_eq!(&tx.data[4..], &encode(&intent)[..]);
    assert_eq!(tx.data, IShinobiOutputSettler::fill_call(&intent.clone().into()));
    assert_eq!(tx.nonce, None);
    assert_eq!(tx.gas_limit, None);
    assert_eq!(tx.gas_price, None);
    assert_eq!(tx.max_fee_per_gas, None);
    assert_eq!(tx.max_priority_fee_per_gas, None);

    let mut token = intent.clone();
    token.outputs[0].token = [0xaa; 32];
    let order = create_test_order(&encode(&token));
    let tx = order_impl.generate_fill_transaction(&order, &params(), NOW).unwrap();
    assert_eq!(tx.value, U256::zero());

    assert_eq!(
        order_impl.generate_fill_transaction(&order, &params(), 1950000000),
        Err(failed("Fill deadline has passed"))
    );
}

#[test]
fn claim_transaction_in_full() {
    let intent = create_test_intent();
    let order_impl = create_test_impl();
    let mut order = create_test_order(&encode(&intent));
    order.solver_address = SolverAddress(vec![0x77; 20]);
    let proof_of_fill = FillProof { filled_timestamp: 1850000000 };
    let tx = order_impl.generate_claim_transaction(&order, &proof_of_fill).unwrap();
    assert_eq!(tx.to, Some(SolverAddress(vec![0x11; 20])));
    assert_eq!(tx.chain_id, 1);
    assert_eq!(tx.value, U256::zero());
    assert_eq!(hex::encode(&tx.data[..4]), "991d53ac");
    assert_eq!(
        hex::encode(alloy_primitives::keccak256(&tx.data[4..])),
        "41c6cbd15c4948ad02cc0bf3e9c18d64c3c066449f27ba51bc3393c6b235bd91"
    );
    // The time of the fill counts by its low 32 bits.
    let later = FillProof { filled_timestamp: 1850000000 + (1u64 << 32) };
    assert_eq!(order_impl.generate_claim_transaction(&order, &later), Ok(tx.clone()));
    assert_eq!(order_impl.try_generate_claim_transaction(&order, &proof_of_fill), Some(Ok(tx)));

    let mut elsewhere = intent.clone();
    elsewhere.origin_chain_id = 5;
    let order = create_test_order(&encode(&elsewhere));
    assert_eq!(
        order_impl.generate_claim_transaction(&order, &proof_of_fill),
        Err(failed("No input settler for chain 5"))
    );
}

#[test]
fn values_out_of_range_give_nothing() {
    let order_impl = create_test_impl();
    let mut sol: ShinobiIntentSol = create_test_intent().into();
    sol.originChainId = U256 { hi: 0, lo: 1u128 << 64 };
    let order = create_test_order(&sol.abi_encode());
    let proof_of_fill = FillProof { filled_timestamp: 1 };
    assert_eq!(order_impl.try_parse_intent(&order), None);
    assert_eq!(order_impl.try_generate_fill_transaction(&order, &params(), NOW), None);
    assert_eq!(order_impl.try_generate_claim_transaction(&order, &proof_of_fill), None);
    assert_eq!(order_impl.try_prepare_order(&sol.abi_encode(), NOW), None);

    // A destination out of range, on an intent that would get that far.
    let mut intent = create_test_intent();
    intent.outputs[0].chain_id = U256 { hi: 1, lo: 0 };
    let order = create_test_order(&encode(&intent));
    assert!(!order_impl.can_check(&intent, NOW));
    assert_eq!(order_impl.try_parse_intent(&order), Some(Ok(intent.clone())));
    assert_eq!(order_impl.try_generate_fill_transaction(&order, &params(), NOW), None);
    assert_eq!(order_impl.try_prepare_order(&encode(&intent), NOW), None);
    // Too late, it is refused for that.
    assert_eq!(
        order_impl.try_generate_fill_transaction(&order, &params(), 1900000000),
        Some(Err(failed("Fill deadline has passed")))
    );

    // A solver address of the wrong length.
    let mut order = create_test_order(&encode(&create_test_intent()));
    order.solver_address = SolverAddress(vec![1, 2, 3]);
    assert_eq!(order_impl.try_generate_claim_transaction(&order, &proof_of_fill), None);
    // In range, the outcome is that of the plain function.
    assert_eq!(
        order_impl.try_generate_fill_transaction(&order, &params(), NOW),
        Some(order_impl.generate_fill_transaction(&order, &params(), NOW))
    );
    let mut unreadable = order.clone();
    unreadable.data.order_bytes = None;
    assert_eq!(
        order_impl.try_parse_intent(&unreadable),
        Some(Err(failed("Missing order_bytes in data")))
    );
}

#[test]
fn an_order_is_drafted_and_created() {
    let order_impl = create_test_impl();
    let intent = create_test_intent();
    let bytes = encode(&intent);
    let draft = order_impl.prepare_order(&bytes, NOW).unwrap();
    let mut tx_data = vec![0x11u8; 20];
    tx_data.extend_from_slice(&bytes);
    let expected = OrderDraft {
        intent: intent.clone(),
        order_bytes: bytes.clone(),
        origin_chain_id: 1,
        tx_data,
        input_chains: vec![ChainSettlerInfo {
            chain_id: 1,
            settler_address: SolverAddress(vec![0x11; 20]),
        }],
        output_chains: vec![ChainSettlerInfo {
            chain_id: 42161,
            settler_address: SolverAddress(vec![0x44; 20]),
        }],
    };
    assert_eq!(draft, expected);
    assert_eq!(order_impl.try_prepare_order(&bytes, NOW), Some(Ok(expected)));

    let solver = SolverAddress(vec![0x77; 20]);
    let order = order_impl
        .finish_order(draft.clone(), Ok(vec![0xab, 0xcd]), None, &solver, 12345)
        .unwrap();
    assert_eq!(order.id, "0xabcd");
    assert_eq!(order.standard, "shinobi");
    assert_eq!(order.created_at, 12345);
    assert_eq!(order.updated_at, 12345);
    assert_eq!(order.status, OrderStatus::Created);
    assert_eq!(order.data.intent, Some(intent.clone()));
    assert_eq!(order.data.order_bytes, Some(format!("0x{}", hex::encode(&bytes))));
    assert_eq!(order.solver_address, solver);
    assert_eq!(order.quote_id, None);
    assert_eq!(order.input_chains, draft.input_chains);
    assert_eq!(order.output_chains, draft.output_chains);
    assert_eq!(order.fill_proof, None);

    // It reads back, and can be filled and claimed.
    assert_eq!(order_impl.parse_intent(&order), Ok(intent.clone()));
    let fill = order_impl.generate_fill_transaction(&order, &params(), NOW + 1).unwrap();
    assert_eq!(fill.to, Some(order.output_chains[0].settler_address.clone()));
    assert_eq!(fill.chain_id, order.output_chains[0].chain_id);
    let claim = order_impl
        .generate_claim_transaction(&order, &FillProof { filled_timestamp: NOW })
        .unwrap();
    assert_eq!(claim.to, Some(order.input_chains[0].settler_address.clone()));
    assert_eq!(claim.chain_id, order.input_chains[0].chain_id);

    // An intent that came along is kept in place of the decoded one.
    let mut given = intent.clone();
    given.nonce = U256::from(9);
    let order = order_impl
        .finish_order(draft.clone(), Ok(vec![1]), Some(given.clone()), &solver, 1)
        .unwrap();
    assert_eq!(order.data.intent, Some(given));
    assert_eq!(order_impl.parse_intent(&order), Ok(intent));

    assert_eq!(
        order_impl.finish_order(draft, Err("no answer".to_string()), None, &solver, 1),
        Err(failed("Failed to compute order ID: no answer"))
    );
}

#[test]
fn drafts_that_are_refused() {
    let order_impl = create_test_impl();
    let intent = create_test_intent();
    assert_eq!(
        order_impl.prepare_order(&encode(&intent), 1900000000),
        Err(failed("Fill deadline has passed"))
    );
    let undecodable = order_impl.prepare_order(&[1, 2, 3], NOW).err().unwrap();
    assert!(undecodable.message().starts_with("Failed to decode ShinobiIntent: "));
    let mut elsewhere = intent;
    elsewhere.outputs[0].chain_id = U256::from(77);
    assert_eq!(
        order_impl.draft_order(elsewhere, &[], NOW),
        Err(failed("No output settler for destination chain 77"))
    );
}

#[test]
fn order_registry_and_schema() {
    assert_eq!(Registry::name(), "shinobi");
    let empty = toml::Value::Table(Default::default());
    assert!(ShinobiOrderConfigSchema.validate(&empty).is_ok());
    assert!(create_test_impl().config_schema().validate(&empty).is_ok());
}

fn oracle(chain_id: u64, byte: u8) -> OracleInfo {
    OracleInfo { chain_id, oracle: SolverAddress(vec![byte; 20]) }
}

fn impl_with_routes(supported_routes: Vec<(OracleInfo, Vec<OracleInfo>)>) -> ShinobiOrderImpl {
    ShinobiOrderImpl::from_config(
        &create_test_config(),
        NetworksConfig::default(),
        OracleRoutes { supported_routes },
    )
    .unwrap()
}

#[test]
fn oracles_need_a_route_once_routes_are_configured() {
    // The fill oracle 0x02.. on chain 1, the intent oracle 0x06.. on chain 42161.
    let intent = create_test_intent();
    let refused = Err(failed(&format!(
        "No oracle route from 0x{} on chain 1 to 0x{} on chain 42161",
        "02".repeat(20),
        "06".repeat(20)
    )));
    let good = oracle(42161, 6);
    let supported = impl_with_routes(vec![
        (oracle(5, 2), vec![]),
        (oracle(1, 2), vec![oracle(10, 6), good.clone()]),
    ]);
    assert_eq!(supported.validate_intent(&intent, NOW), Ok(()));
    for routes in [
        vec![(oracle(1, 2), vec![])],
        vec![(oracle(1, 9), vec![good.clone()])],
        vec![(oracle(5, 2), vec![good.clone()])],
        vec![(oracle(1, 2), vec![oracle(10, 6), oracle(42161, 9)])],
        vec![(good, vec![oracle(1, 2)])],
    ] {
        let order_impl = impl_with_routes(routes);
        assert_eq!(order_impl.validate_intent(&intent, NOW), refused);
        let order = create_test_order(&encode(&intent));
        assert!(order_impl.generate_fill_transaction(&order, &params(), NOW).is_err());
        assert!(order_impl.prepare_order(&encode(&intent), NOW).is_err());
        // A claim is not held up by it.
        let filled = FillProof { filled_timestamp: 1 };
        assert!(order_impl.generate_claim_transaction(&order, &filled).is_ok());
        // What is wrong before that is said first.
        assert_eq!(
            order_impl.validate_intent(&intent, 1900000000),
            Err(failed("Fill deadline has passed"))
        );
    }
}
