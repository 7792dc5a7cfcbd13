use shinobi_solver::discovery::{ConnectOutcome, Log, ShinobiDiscovery};
use shinobi_solver::eip7683::MandateOutput;
use shinobi_solver::intent::ShinobiIntent;
use shinobi_solver::order::ShinobiOrderImpl;
use shinobi_solver::primitives::{Address, U256};
use shinobi_solver::settler::{IShinobiInputSettler, ShinobiIntentSol};
use shinobi_solver::text::SolverAddress;
use shinobi_solver::types::{
    ExecutionParams, FillProof, NetworkConfig, NetworksConfig, OracleRoutes,
};
use std::collections::HashMap;

fn intent() -> ShinobiIntent {
    ShinobiIntent {
        user: Address::from([1u8; 20]),
        nonce: U256::from(123),
        origin_chain_id: 42161,
        expires: 2000000000,
        fill_deadline: 1900000000,
        fill_oracle: Address::from([2u8; 20]),
        inputs: vec![[U256::from(0), U256::from(1000)]],
        outputs: vec![MandateOutput {
            oracle: [3u8; 32],
            settler: [4u8; 32],
            chain_id: U256::from(1),
            token: [7u8; 32],
            amount: U256::from(900),
            recipient: [5u8; 32],
            call: vec![1, 2, 3],
            context: Vec::new(),
        }],
        intent_oracle: Address::from([6u8; 20]),
        refund_calldata: vec![9],
    }
}

#[test]
fn a_deposit_from_discovery_to_claim() {
    let mut settlers = HashMap::new();
    settlers.insert(42161u64, Address::from([0x22u8; 20]));
    let mut networks = NetworksConfig::default();
    networks
        .insert(42161, NetworkConfig { http_url: Some("http://node".to_string()), ws_url: None });
    let mut setup =
        ShinobiDiscovery::new(settlers, networks, None, "native_escrow".to_string()).unwrap();
    setup.record_connection(ConnectOutcome::ConnectedAt(7)).unwrap();
    let (discovery, _) = setup.finish();

    let log = Log {
        topics: vec![IShinobiInputSettler::open_signature_hash(), intent().order_identifier()],
        data: ShinobiIntentSol::from(intent()).abi_encode(),
        block_timestamp: Some(1800000000),
    };
    let found = discovery.process_open_event(&log, 42161, 0).unwrap();
    assert_eq!(found.data, intent());
    assert_eq!(found.order_bytes, log.data);
    assert!(found.data.is_deposit());

    let order_impl = ShinobiOrderImpl::new(
        &vec![("42161".to_string(), "0x2222222222222222222222222222222222222222".to_string())],
        &vec![("1".to_string(), "0x3333333333333333333333333333333333333333".to_string())],
        NetworksConfig::default(),
        OracleRoutes { supported_routes: Vec::new() },
    )
    .unwrap();
    let draft = order_impl.prepare_order(&found.order_bytes, 1800000001).unwrap();
    assert_eq!(draft.intent, found.data);
    let solver = SolverAddress(vec![0x77; 20]);
    let id = found.data.order_identifier().to_vec();
    let order = order_impl
        .finish_order(draft, Ok(id), Some(found.data.clone()), &solver, 1800000002)
        .unwrap();
    assert_eq!(order.id, found.id);

    let params = ExecutionParams { gas_price: U256::from(1), priority_fee: None };
    let fill = order_impl.generate_fill_transaction(&order, &params, 1800000003).unwrap();
    assert_eq!(&fill.data[4..], &found.order_bytes[..]);
    assert_eq!(fill.chain_id, 1);
    assert_eq!(fill.to, Some(SolverAddress(vec![0x33; 20])));
    assert_eq!(fill.value, U256::zero());

    let claim = order_impl
        .generate_claim_transaction(&order, &FillProof { filled_timestamp: 1800000004 })
        .unwrap();
    assert_eq!(claim.chain_id, 42161);
    assert_eq!(claim.to, Some(SolverAddress(vec![0x22; 20])));
    assert_eq!(claim.value, U256::zero());
}
