use shinobi_solver::discovery::{
    ConnectOutcome, DiscoveryError, Log, Monitoring, ShinobiDiscovery,
};
use shinobi_solver::eip7683::MandateOutput;
use shinobi_solver::intent::ShinobiIntent;
use shinobi_solver::monitor::{
    HttpMonitor, LogFilter, MonitorAction, PollEvent, SubscriptionEvent,
};
use shinobi_solver::primitives::{Address, U256};
use shinobi_solver::settler::{IShinobiInputSettler, ShinobiIntentSol};
use shinobi_solver::types::{NetworkConfig, NetworksConfig};
use std::collections::HashMap;

fn sol_intent() -> ShinobiIntentSol {
    ShinobiIntent {
        user: Address::from([1u8; 20]),
        nonce: U256::from(123),
        origin_chain_id: 1,
        expires: 2000000000,
        fill_deadline: 1900000000,
        fill_oracle: Address::from([2u8; 20]),
        inputs: vec![[U256::from(0), U256::from(1000)]],
        outputs: vec![MandateOutput {
            oracle: [3u8; 32],
            settler: [4u8; 32],
            chain_id: U256::from(42161),
            token: [0u8; 32],
            amount: U256::from(900),
            recipient: [5u8; 32],
            call: Vec::new(),
            context: Vec::new(),
        }],
        intent_oracle: Address::from([6u8; 20]),
        refund_calldata: Vec::new(),
    }
    .into()
}

fn log(id: u8) -> Log {
    Log {
        topics: vec![IShinobiInputSettler::open_signature_hash(), [id; 32]],
        data: sol_intent().abi_encode(),
        block_timestamp: None,
    }
}

fn oversized() -> Log {
    let mut sol = sol_intent();
    sol.originChainId = U256 { hi: 1, lo: 0 };
    Log { data: sol.abi_encode(), ..log(0) }
}

/// Discovery on chain 1, looked at up to block 100.
fn discovery() -> (ShinobiDiscovery, Monitoring) {
    let mut settlers = HashMap::new();
    settlers.insert(1u64, Address::from([8u8; 20]));
    let mut networks = NetworksConfig::default();
    networks.insert(1, NetworkConfig { http_url: Some("http://node".to_string()), ws_url: None });
    let mut setup =
        ShinobiDiscovery::new(settlers, networks, Some(5), "native_escrow".to_string()).unwrap();
    setup.record_connection(ConnectOutcome::ConnectedAt(100)).unwrap();
    setup.finish()
}

fn filter(from_block: Option<u64>, to_block: Option<u64>) -> LogFilter {
    LogFilter {
        address: Address::from([8u8; 20]),
        event_signature: IShinobiInputSettler::open_signature_hash(),
        from_block,
        to_block,
    }
}

fn sent_id(action: MonitorAction) -> String {
    match action {
        MonitorAction::Send(intent) => intent.id,
        other => panic!("not sent: {:?}", other),
    }
}

/// What is said of a log whose data is no intent.
fn unreadable_report() -> MonitorAction {
    MonitorAction::Report(DiscoveryError::ParseError(
        "Failed to decode Open event: ABI decoding failed: buffer overrun while deserializing"
            .to_string(),
    ))
}

#[test]
fn a_poll_hands_on_every_opened_intent_once_and_in_order() {
    let (d, mut shared) = discovery();
    let mut m = HttpMonitor::new(1, Address::from([8u8; 20]));
    assert_eq!(d.monitor_chain_http(&mut shared, &mut m, PollEvent::Tick, 0), MonitorAction::GetBlockNumber);
    assert_eq!(
        d.monitor_chain_http(&mut shared, &mut m, PollEvent::Block(Some(110)), 0),
        MonitorAction::GetLogs(filter(Some(101), Some(110)))
    );
    let mut unreadable = log(7);
    unreadable.data = vec![1, 2, 3];
    let logs = vec![unreadable.clone(), log(1), unreadable.clone(), log(2), unreadable];
    assert_eq!(
        d.monitor_chain_http(&mut shared, &mut m, PollEvent::Logs(Some(logs)), 49),
        unreadable_report()
    );
    let first = d.monitor_chain_http(&mut shared, &mut m, PollEvent::Reported, 50);
    match &first {
        MonitorAction::Send(intent) => assert_eq!(intent.metadata.discovered_at, 50),
        other => panic!("not sent: {:?}", other),
    }
    assert_eq!(sent_id(first), format!("0x{}", "01".repeat(32)));
    assert_eq!(shared.last_block(1), Some(100));
    assert_eq!(
        d.monitor_chain_http(&mut shared, &mut m, PollEvent::Sent(true), 51),
        unreadable_report()
    );
    let second = d.monitor_chain_http(&mut shared, &mut m, PollEvent::Reported, 51);
    assert_eq!(sent_id(second), format!("0x{}", "02".repeat(32)));
    assert_eq!(
        d.monitor_chain_http(&mut shared, &mut m, PollEvent::Sent(true), 52),
        unreadable_report()
    );
    assert_eq!(shared.last_block(1), Some(100));
    assert_eq!(d.monitor_chain_http(&mut shared, &mut m, PollEvent::Reported, 52), MonitorAction::Wait);
    assert_eq!(shared.last_block(1), Some(110));

    // The next poll starts right behind.
    d.monitor_chain_http(&mut shared, &mut m, PollEvent::Tick, 0);
    assert_eq!(
        d.monitor_chain_http(&mut shared, &mut m, PollEvent::Block(Some(111)), 0),
        MonitorAction::GetLogs(filter(Some(111), Some(111)))
    );
    assert_eq!(
        d.monitor_chain_http(&mut shared, &mut m, PollEvent::Logs(Some(vec![])), 0),
        MonitorAction::Wait
    );
    assert_eq!(shared.last_block(1), Some(111));
}

/// What a block of the chain holds: intents that are opened, named by a byte, and an unreadable
/// log for each zero.
fn block_logs(block: u64) -> Vec<Log> {
    let ids: &[u8] = match block {
        101 => &[1],
        103 => &[0, 2, 3],
        104 => &[0],
        106 => &[4, 0],
        _ => &[],
    };
    ids.iter()
        .map(|id| if *id == 0 { Log { data: vec![1, 2, 3], ..log(0) } } else { log(*id) })
        .collect()
}

#[test]
fn a_run_of_polls_sends_what_the_chain_opened() {
    let (d, mut shared) = discovery();
    let mut m = HttpMonitor::new(1, Address::from([8u8; 20]));
    let mut sent = Vec::new();
    // The current block at each tick, and whether the chain answers with its logs.
    for (current, answers) in [
        (Some(102), true),
        (None, true),
        (Some(104), false),
        (Some(104), true),
        (Some(104), true),
        (Some(107), true),
    ] {
        let mut event = PollEvent::Tick;
        loop {
            event = match d.monitor_chain_http(&mut shared, &mut m, event, 5) {
                MonitorAction::GetBlockNumber => PollEvent::Block(current),
                MonitorAction::GetLogs(filter) => {
                    let blocks = filter.from_block.unwrap()..=filter.to_block.unwrap();
                    PollEvent::Logs(answers.then_some(blocks.flat_map(block_logs).collect()))
                }
                MonitorAction::Send(intent) => {
                    sent.push(intent.id);
                    PollEvent::Sent(true)
                }
                MonitorAction::Report(_) => PollEvent::Reported,
                MonitorAction::Wait => break,
                other => panic!("not expected: {:?}", other),
            };
        }
    }
    assert_eq!(shared.last_block(1), Some(107));
    let expected: Vec<String> =
        (1..=4).map(|id| format!("0x{}", format!("{:02x}", id).repeat(32))).collect();
    assert_eq!(sent, expected);
}

#[test]
fn polls_that_come_to_nothing() {
    let (d, mut shared) = discovery();
    let mut m = HttpMonitor::new(1, Address::from([8u8; 20]));
    // No answer about the block, no new block.
    for block in [None, Some(100), Some(99)] {
        d.monitor_chain_http(&mut shared, &mut m, PollEvent::Tick, 0);
        assert_eq!(
            d.monitor_chain_http(&mut shared, &mut m, PollEvent::Block(block), 0),
            MonitorAction::Wait
        );
    }
    // No answer about the logs.
    d.monitor_chain_http(&mut shared, &mut m, PollEvent::Tick, 0);
    d.monitor_chain_http(&mut shared, &mut m, PollEvent::Block(Some(105)), 0);
    assert_eq!(d.monitor_chain_http(&mut shared, &mut m, PollEvent::Logs(None), 0), MonitorAction::Wait);
    assert_eq!(shared.last_block(1), Some(100));
    // The solver is gone.
    d.monitor_chain_http(&mut shared, &mut m, PollEvent::Tick, 0);
    d.monitor_chain_http(&mut shared, &mut m, PollEvent::Block(Some(106)), 0);
    sent_id(d.monitor_chain_http(&mut shared, &mut m, PollEvent::Logs(Some(vec![log(1)])), 0));
    assert_eq!(d.monitor_chain_http(&mut shared, &mut m, PollEvent::Sent(false), 0), MonitorAction::Exit);
    assert_eq!(shared.last_block(1), Some(100));
}

#[test]
fn a_chain_without_a_start_block_is_never_asked_for_logs() {
    let (d, mut shared) = discovery();
    let mut m = HttpMonitor::new(2, Address::from([8u8; 20]));
    for block in [50, 60] {
        d.monitor_chain_http(&mut shared, &mut m, PollEvent::Tick, 0);
        assert_eq!(
            d.monitor_chain_http(&mut shared, &mut m, PollEvent::Block(Some(block)), 0),
            MonitorAction::Wait
        );
    }
    assert_eq!(shared.last_block(2), None);
}

#[test]
fn polling_stops() {
    let (d, mut shared) = discovery();
    let mut m = HttpMonitor::new(1, Address::from([8u8; 20]));
    assert_eq!(d.monitor_chain_http(&mut shared, &mut m, PollEvent::Stop, 0), MonitorAction::Exit);

    let mut m = HttpMonitor::new(1, Address::from([8u8; 20]));
    d.monitor_chain_http(&mut shared, &mut m, PollEvent::Tick, 0);
    d.monitor_chain_http(&mut shared, &mut m, PollEvent::Block(Some(105)), 0);
    assert_eq!(
        d.monitor_chain_http(&mut shared, &mut m, PollEvent::Logs(Some(vec![oversized(), log(1)])), 0),
        MonitorAction::Abort
    );
    assert_eq!(shared.last_block(1), Some(100));
}

#[test]
fn a_subscription_hands_on_what_is_opened() {
    let (d, _) = discovery();
    assert_eq!(d.subscription_filter(Address::from([8u8; 20])), filter(None, None));
    assert_eq!(
        d.monitor_chain_ws(1, SubscriptionEvent::Subscribed(true), 0),
        MonitorAction::Wait
    );
    assert_eq!(
        d.monitor_chain_ws(1, SubscriptionEvent::Subscribed(false), 0),
        MonitorAction::Exit
    );
    assert_eq!(
        sent_id(d.monitor_chain_ws(1, SubscriptionEvent::Log(log(3)), 9)),
        format!("0x{}", "03".repeat(32))
    );
    assert_eq!(d.monitor_chain_ws(1, SubscriptionEvent::Sent(true), 0), MonitorAction::Wait);
    assert_eq!(d.monitor_chain_ws(1, SubscriptionEvent::Sent(false), 0), MonitorAction::Exit);
    let mut unreadable = log(3);
    unreadable.data = vec![1, 2, 3];
    assert_eq!(
        d.monitor_chain_ws(1, SubscriptionEvent::Log(unreadable), 0),
        unreadable_report()
    );
    let mut other = log(3);
    other.topics.truncate(1);
    assert_eq!(
        d.monitor_chain_ws(1, SubscriptionEvent::Log(other), 0),
        MonitorAction::Report(DiscoveryError::ParseError(
            "Failed to decode Open event: topic list length mismatch".to_string()
        ))
    );
    assert_eq!(
        d.monitor_chain_ws(1, SubscriptionEvent::Log(oversized()), 0),
        MonitorAction::Abort
    );
    assert_eq!(d.monitor_chain_ws(1, SubscriptionEvent::Stop, 0), MonitorAction::Exit);
}

#[test]
fn what_a_copy_has_looked_at_is_seen_by_all() {
    let (d, mut shared) = discovery();
    let copy = d.clone();
    let mut m = HttpMonitor::new(1, Address::from([8u8; 20]));
    copy.monitor_chain_http(&mut shared, &mut m, PollEvent::Tick, 0);
    copy.monitor_chain_http(&mut shared, &mut m, PollEvent::Block(Some(105)), 0);
    copy.monitor_chain_http(&mut shared, &mut m, PollEvent::Logs(Some(vec![])), 0);
    let mut m = HttpMonitor::new(1, Address::from([8u8; 20]));
    d.monitor_chain_http(&mut shared, &mut m, PollEvent::Tick, 0);
    assert_eq!(
        d.monitor_chain_http(&mut shared, &mut m, PollEvent::Block(Some(107)), 0),
        MonitorAction::GetLogs(filter(Some(106), Some(107)))
    );
}
