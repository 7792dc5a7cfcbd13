use shinobi_solver::discovery::{
    ConnectOutcome, Connection, DiscoveryError, DiscoverySetup, Log, MonitorTask, Monitoring,
    ProviderKind, Registry, ShinobiDiscovery, ShinobiDiscoveryConfig, ShinobiDiscoveryConfigSchema,
};
use shinobi_solver::eip7683::MandateOutput;
use shinobi_solver::intent::ShinobiIntent;
use shinobi_solver::primitives::{Address, U256};
use shinobi_solver::settler::{IShinobiInputSettler, ShinobiIntentSol};
use shinobi_solver::text::with_0x_prefix;
use shinobi_solver::types::{NetworkConfig, NetworksConfig};
use std::collections::HashMap;

/// Helper to create a test ShinobiIntent
fn create_test_intent() -> ShinobiIntent {
    ShinobiIntent {
        user: Address::from([1u8; 20]),
        nonce: U256::from(123),
        origin_chain_id: 1,
        expires: 2000000000,
        fill_deadline: 1900000000,
        fill_oracle: Address::from([2u8; 20]),
        inputs: vec![[U256::from(0), U256::from(1000000000000000000u64)]],
        outputs: vec![MandateOutput {
            oracle: [3u8; 32],
            settler: [4u8; 32],
            chain_id: U256::from(42161),
            token: [0u8; 32], // Native ETH
            amount: U256::from(900000000000000000u64),
            recipient: [5u8; 32],
            call: Vec::new(),
            context: Vec::new(),
        }],
        intent_oracle: Address::from([6u8; 20]),
        refund_calldata: Vec::new(),
    }
}

fn network(http: Option<&str>, ws: Option<&str>) -> NetworkConfig {
    NetworkConfig {
        http_url: http.map(|u| u.to_string()),
        ws_url: ws.map(|u| u.to_string()),
    }
}

fn setup(chains: &[u64], networks: NetworksConfig, interval: Option<u64>) -> DiscoverySetup {
    let mut settlers = HashMap::new();
    for chain in chains {
        settlers.insert(*chain, Address::from([*chain as u8; 20]));
    }
    ShinobiDiscovery::new(settlers, networks, interval, "native_escrow".to_string()).unwrap()
}

fn both(chains: &[u64]) -> NetworksConfig {
    let mut networks = NetworksConfig::default();
    for chain in chains {
        networks.insert(*chain, network(Some("http://node"), Some("ws://node")));
    }
    networks
}

/// Discovery on one polled chain, at block 100.
fn single() -> (ShinobiDiscovery, Monitoring) {
    let mut setup = setup(&[1], both(&[1]), None);
    assert_eq!(
        setup.next_connection(),
        Ok(Some(Connection {
            network_id: 1,
            kind: ProviderKind::Http,
            url: "http://node".to_string()
        }))
    );
    setup.record_connection(ConnectOutcome::ConnectedAt(100)).unwrap();
    assert_eq!(setup.next_connection(), Ok(None));
    setup.finish()
}

#[test]
fn shinobi_test_intent_conversion() {
    let intent = create_test_intent();
    let order_id = intent.order_identifier();

    // Convert to Solidity format
    let sol_intent: ShinobiIntentSol = intent.clone().into();

    let (discovery, _) = single();

    // Test conversion to Intent
    let result = discovery.convert_to_intent(order_id, sol_intent, 1000);

    assert!(result.is_ok());
    let solver_intent = result.unwrap();

    // Verify Intent fields
    assert_eq!(solver_intent.id, with_0x_prefix(&hex::encode(order_id)));
    assert_eq!(solver_intent.source, "on-chain");
    assert_eq!(solver_intent.standard, "shinobi");
    assert_eq!(solver_intent.lock_type, "native_escrow");
    assert_eq!(solver_intent.metadata.requires_auction, false);
    assert_eq!(solver_intent.metadata.discovered_at, 1000);

    // Verify order_bytes can be decoded back
    let decoded = ShinobiIntentSol::abi_decode(&solver_intent.order_bytes).unwrap();
    assert_eq!(decoded.user, intent.user);
    assert_eq!(decoded.nonce, intent.nonce);
    assert_eq!(solver_intent.data, intent);
    assert_eq!(solver_intent.metadata.exclusive_until, None);
    assert_eq!(solver_intent.quote_id, None);
}

#[test]
fn shinobi_test_native_eth_detection() {
    let intent = create_test_intent();

    // Verify this is a native ETH intent
    assert!(intent.is_native_eth_output());
    assert_eq!(intent.output_amount(), Some(U256::from(900000000000000000u64)));
}

#[test]
fn test_withdrawal_vs_deposit() {
    let mut withdrawal_intent = create_test_intent();
    withdrawal_intent.origin_chain_id = 1; // Ethereum

    let mut deposit_intent = create_test_intent();
    deposit_intent.origin_chain_id = 42161; // Arbitrum

    assert!(withdrawal_intent.is_withdrawal());
    assert!(!withdrawal_intent.is_deposit());

    assert!(!deposit_intent.is_withdrawal());
    assert!(deposit_intent.is_deposit());
}

#[test]
fn test_config_structure() {
    // Test that the config struct has the right fields
    let mut input_settlers = HashMap::new();
    input_settlers.insert(1, "0x1111111111111111111111111111111111111111".to_string());
    input_settlers.insert(42161, "0x2222222222222222222222222222222222222222".to_string());

    let config = ShinobiDiscoveryConfig {
        lock_type: "native_escrow".to_string(),
        polling_interval_secs: Some(5),
        input_settlers,
    };

    assert_eq!(config.lock_type, "native_escrow");
    assert_eq!(config.polling_interval_secs, Some(5));
    assert_eq!(config.input_settlers.len(), 2);
    assert_eq!(
        config.input_settlers.get(&1).unwrap(),
        "0x1111111111111111111111111111111111111111"
    );
    assert_eq!(
        config.input_settlers.get(&42161).unwrap(),
        "0x2222222222222222222222222222222222222222"
    );
}

#[test]
fn test_order_id_deterministic() {
    let intent1 = create_test_intent();
    let intent2 = create_test_intent();

    let id1 = intent1.order_identifier();
    let id2 = intent2.order_identifier();

    // Same intent should produce same order ID
    assert_eq!(id1, id2);

    // Different nonce should produce different order ID
    let mut intent3 = create_test_intent();
    intent3.nonce = U256::from(456);
    let id3 = intent3.order_identifier();

    assert_ne!(id1, id3);
    assert_eq!(
        hex::encode(id3),
        "3a82acd7c069ec58643a1aa0242c961e18cd9ea97251c57555c1f1fbab9c0b96"
    );
}

#[test]
fn test_config_schema_validation() {
    let schema = ShinobiDiscoveryConfigSchema;

    // Empty config should pass (validation done in factory)
    let empty_config = toml::Value::Table(Default::default());
    assert!(schema.validate(&empty_config).is_ok());
}

#[test]
fn setting_up_needs_a_settler() {
    let refused =
        ShinobiDiscovery::new(HashMap::new(), NetworksConfig::default(), None, String::new());
    assert_eq!(
        refused.err(),
        Some(DiscoveryError::ValidationError(
            "At least one input settler must be configured".to_string()
        ))
    );
}

#[test]
fn networks_that_cannot_be_connected() {
    let missing = setup(&[7], NetworksConfig::default(), None);
    assert_eq!(
        missing.next_connection(),
        Err(DiscoveryError::ValidationError("Network 7 not found in configuration".to_string()))
    );
    let mut networks = NetworksConfig::default();
    networks.insert(7, network(None, None));
    assert_eq!(
        setup(&[7], networks.clone(), Some(0)).next_connection(),
        Err(DiscoveryError::Connection(
            "No WebSocket RPC URL configured for network 7".to_string()
        ))
    );
    assert_eq!(
        setup(&[7], networks, Some(9)).next_connection(),
        Err(DiscoveryError::Connection("No HTTP RPC URL configured for network 7".to_string()))
    );

    let mut networks = NetworksConfig::default();
    networks.insert(7, network(Some("not a url"), Some("not a url")));
    assert_eq!(
        setup(&[7], networks.clone(), Some(9)).next_connection(),
        Err(DiscoveryError::Connection(
            "Invalid RPC URL for network 7: relative URL without a base".to_string()
        ))
    );
    // A WebSocket URL is left to the connection.
    assert!(setup(&[7], networks, Some(0)).next_connection().is_ok());

    let mut http = setup(&[7], both(&[7]), Some(9));
    assert_eq!(
        http.record_connection(ConnectOutcome::BlockNumberFailed("down".to_string())),
        Err(DiscoveryError::Connection(
            "Failed to get block number for network 7: down".to_string()
        ))
    );
    let mut ws = setup(&[7], both(&[7]), Some(0));
    assert_eq!(
        ws.record_connection(ConnectOutcome::WebSocketFailed("down".to_string())),
        Err(DiscoveryError::Connection(
            "Failed to connect to WebSocket for network 7: down".to_string()
        ))
    );
}

#[test]
fn every_network_is_connected_and_watched() {
    let mut setup = setup(&[1, 2, 3], both(&[1, 2, 3]), Some(0));
    let mut seen = Vec::new();
    while let Some(connection) = setup.next_connection().unwrap() {
        assert_eq!(connection.kind, ProviderKind::WebSocket);
        assert_eq!(connection.url, "ws://node");
        seen.push(connection.network_id);
        setup.record_connection(ConnectOutcome::Connected).unwrap();
    }
    let (discovery, mut shared) = setup.finish();
    assert_eq!(discovery.polling_interval(), 0);
    assert_eq!(shared.last_block(1), None);
    let (tasks, started) = discovery.start_monitoring(&mut shared);
    assert_eq!(started, Ok(()));
    let watched: Vec<u64> = tasks.iter().map(|t| t.chain_id).collect();
    assert_eq!(watched, seen);
    for task in &tasks {
        assert_eq!(task.settler_address, Address::from([task.chain_id as u8; 20]));
        assert_eq!(task.kind, ProviderKind::WebSocket);
    }
    seen.sort();
    assert_eq!(seen, vec![1, 2, 3]);
}

#[test]
fn monitoring_starts_and_stops() {
    let (discovery, mut shared) = single();
    assert_eq!(discovery.polling_interval(), 3);
    assert_eq!(shared.last_block(1), Some(100));
    assert!(!discovery.stop_monitoring(&mut shared));
    let task = MonitorTask {
        chain_id: 1,
        settler_address: Address::from([1u8; 20]),
        kind: ProviderKind::Http,
    };
    assert_eq!(discovery.start_monitoring(&mut shared), (vec![task], Ok(())));
    assert_eq!(
        discovery.start_monitoring(&mut shared),
        (vec![], Err(DiscoveryError::AlreadyMonitoring))
    );
    assert!(discovery.stop_monitoring(&mut shared));
    assert!(!discovery.stop_monitoring(&mut shared));
    assert_eq!(discovery.start_monitoring(&mut shared), (vec![task], Ok(())));
    assert_eq!(shared.last_block(1), Some(100));
}

#[test]
fn a_copy_shares_the_monitoring() {
    let (discovery, mut shared) = single();
    let copy = discovery.clone();
    assert!(discovery.start_monitoring(&mut shared).1.is_ok());
    assert_eq!(
        copy.start_monitoring(&mut shared),
        (vec![], Err(DiscoveryError::AlreadyMonitoring))
    );
    // Stopping through the copy ends it for both.
    assert!(copy.stop_monitoring(&mut shared));
    assert!(!discovery.stop_monitoring(&mut shared));
}

#[test]
fn a_copy_has_no_providers() {
    let (discovery, mut shared) = single();
    let copy = discovery.clone();
    assert_eq!(copy.polling_interval(), 3);
    assert_eq!(
        copy.start_monitoring(&mut shared),
        (vec![], Err(DiscoveryError::Connection("No provider for network 1".to_string())))
    );
    assert_eq!(
        copy.start_monitoring(&mut shared),
        (vec![], Err(DiscoveryError::AlreadyMonitoring))
    );
}

#[test]
fn open_events_are_processed() {
    let (discovery, _) = single();
    let intent = create_test_intent();
    let sol: ShinobiIntentSol = intent.clone().into();
    let mut log = Log {
        topics: vec![IShinobiInputSettler::open_signature_hash(), [9u8; 32]],
        data: sol.abi_encode(),
        block_timestamp: Some(555),
    };
    let found = discovery.process_open_event(&log, 1, 777).unwrap();
    assert_eq!(found.id, format!("0x{}", "09".repeat(32)));
    assert_eq!(found.metadata.discovered_at, 555);
    assert_eq!(found.data, intent);
    assert_eq!(found.order_bytes, log.data);
    assert_eq!(discovery.try_process_open_event(&log, 1, 777), Some(Ok(found)));

    log.block_timestamp = None;
    let found = discovery.process_open_event(&log, 1, 777).unwrap();
    assert_eq!(found.metadata.discovered_at, 777);

    let mut short = log.clone();
    short.topics.pop();
    assert_eq!(
        discovery.process_open_event(&short, 1, 777),
        Err(DiscoveryError::ParseError(
            "Failed to decode Open event: topic list length mismatch".to_string()
        ))
    );
    assert_eq!(
        discovery.convert_decoded(Err("why".to_string()), 1),
        Err(DiscoveryError::ParseError("Failed to decode Open event: why".to_string()))
    );

    let mut garbled = log.clone();
    garbled.data = vec![1, 2, 3];
    assert_eq!(
        discovery.process_open_event(&garbled, 1, 777),
        Err(DiscoveryError::ParseError(
            "Failed to decode Open event: ABI decoding failed: buffer overrun while deserializing"
                .to_string()
        ))
    );

    let mut far = sol;
    far.originChainId = U256 { hi: 1, lo: 0 };
    log.data = far.abi_encode();
    assert_eq!(discovery.try_process_open_event(&log, 1, 777), None);
}

#[test]
fn discovery_registry() {
    assert_eq!(Registry::name(), "shinobi");
    let mut config = ShinobiDiscoveryConfig {
        input_settlers: HashMap::new(),
        lock_type: "native_escrow".to_string(),
        polling_interval_secs: None,
    };
    assert_eq!(
        Registry::factory(&config, NetworksConfig::default()).err(),
        Some(DiscoveryError::ValidationError(
            "At least one input settler must be configured".to_string()
        ))
    );
    config
        .input_settlers
        .insert(42161, "0x2222222222222222222222222222222222222222".to_string());
    let setup = Registry::factory(&config, both(&[42161])).unwrap();
    let next = setup.next_connection().unwrap().unwrap();
    assert_eq!(next.network_id, 42161);
    assert_eq!(next.kind, ProviderKind::Http);

    config.input_settlers.insert(5, "0x22".to_string());
    match Registry::factory(&config, both(&[42161])) {
        Err(DiscoveryError::ValidationError(message)) => {
            assert!(message.starts_with("Invalid settler address for chain 5: "))
        }
        _ => panic!("an address that cannot be read was taken"),
    }
}
