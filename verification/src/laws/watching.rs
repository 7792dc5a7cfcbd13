//! What is found and how: connecting networks, reading logs, polling and subscribing.

use vstd::prelude::*;
use vstd::utf8::encode_utf8;
use crate::abi::{abi_encoded_words, keccak256_of, WordsView};
use crate::discovery::{
    Connection, ConnectOutcome, DiscoveryError, DiscoverySetup, DiscoveryView, ErrorView,
    found_intent, Log, Monitoring, MonitorTask, ProviderKind, ShinobiDiscovery, task_for,
    tasks_for, tasks_view, TaskView, url_error_text,
};
use crate::laws::encoding::{lemma_same_intent, lemma_words_hold_sol, same_intent, words_hold_sol};
use crate::monitor::{
    HttpMonitor, log_action, LogFilter, MonitorAction, PhaseView, PollEvent, SubscriptionEvent,
};
use crate::primitives::Address;
use crate::settler::{IShinobiInputSettler, OPEN_SIGNATURE, OpenEvent, ShinobiIntentSol};
use crate::text::{decimal, hex_text};
use crate::types::Intent;

verus! {

// ---------------------------------------------------------------------------
// From log to intent
// ---------------------------------------------------------------------------
/// Whether an intent for the solver is what was opened under an identifier: with every field, its
/// encoding, and the time at which it was found.
pub open spec fn is_found(
    found: Intent,
    lock_type: Seq<char>,
    order_id: Seq<u8>,
    sol: ShinobiIntentSol,
    words: WordsView,
    discovered_at: u64,
) -> bool {
    &&& found.id@ == "0x"@ + hex_text(order_id)
    &&& found.source@ == "on-chain"@
    &&& found.standard@ == "shinobi"@
    &&& !found.metadata.requires_auction
    &&& found.metadata.exclusive_until is None
    &&& found.metadata.discovered_at == discovered_at
    &&& same_intent(found.data, sol)
    &&& found.order_bytes@ == abi_encoded_words(words)
    &&& found.quote_id is None
    &&& found.lock_type@ == lock_type
}

/// An intent for the solver as a mathematical value has these fields.
proof fn lemma_found(
    found: Intent,
    lock_type: Seq<char>,
    order_id: Seq<u8>,
    sol: ShinobiIntentSol,
    words: WordsView,
    discovered_at: u64,
)
    requires
        found@ == found_intent(lock_type, order_id, sol@, discovered_at),
        words_hold_sol(words, sol),
    ensures
        is_found(found, lock_type, order_id, sol, words, discovered_at),
{
    lemma_same_intent(found.data, sol);
    lemma_words_hold_sol(words, sol);
}

/// What an event told becomes an intent for the solver with every field of it.
pub proof fn law_event_becomes_an_intent(
    d: ShinobiDiscovery,
    order_id: [u8; 32],
    sol: ShinobiIntentSol,
    at: u64,
    converted: Result<Intent, DiscoveryError>,
    words: WordsView,
)
    requires
        call_ensures(ShinobiDiscovery::convert_to_intent, (&d, order_id, sol, at), converted),
        words_hold_sol(words, sol),
    ensures
        converted matches Ok(found) && is_found(
            found,
            d@.lock_type,
            order_id@,
            sol,
            words,
            at,
        ),
{
    lemma_found(converted->Ok_0, d@.lock_type, order_id@, sol, words, at);
}

/// A decoded event becomes an intent for the solver; one that cannot be decoded is reported.
pub proof fn law_decoded_event_becomes_an_intent(
    d: ShinobiDiscovery,
    decoded: Result<OpenEvent, String>,
    at: u64,
    converted: Result<Intent, DiscoveryError>,
    words: WordsView,
)
    requires
        call_ensures(ShinobiDiscovery::convert_decoded, (&d, decoded, at), converted),
        decoded matches Ok(open) ==> words_hold_sol(words, open.intent),
    ensures
        match decoded {
            Ok(open) => converted matches Ok(found) && is_found(
                found,
                d@.lock_type,
                open.order_id@,
                open.intent,
                words,
                at,
            ),
            Err(e) => {
                &&& converted matches Err(DiscoveryError::ParseError(message))
                &&& message@ == "Failed to decode Open event: "@ + e@
            },
        },
{
    if let Ok(open) = decoded {
        lemma_found(
            converted->Ok_0,
            d@.lock_type,
            open.order_id@,
            open.intent,
            words,
            at,
        );
    }
}

/// A log becomes an intent for the solver if it is an `Open` event: under its second topic, found
/// at the time of its block or else now. Any other log is reported.
pub proof fn law_log_becomes_an_intent(
    d: ShinobiDiscovery,
    log: Log,
    chain_id: u64,
    now: u64,
    data: &[u8],
    opened: Result<OpenEvent, String>,
    processed: Result<Intent, DiscoveryError>,
    words: WordsView,
)
    requires
        data@ == log.data@,
        call_ensures(IShinobiInputSettler::decode_open, (&log.topics, data), opened),
        opened matches Ok(open) ==> words_hold_sol(words, open.intent),
        call_ensures(ShinobiDiscovery::process_open_event, (&d, &log, chain_id, now), processed)
            || call_ensures(
            ShinobiDiscovery::try_process_open_event,
            (&d, &log, chain_id, now),
            Some(processed),
        ),
    ensures
        match opened {
            Ok(open) => processed matches Ok(found) && is_found(
                found,
                d@.lock_type,
                log.topics@[1]@,
                open.intent,
                words,
                match log.block_timestamp {
                    Some(timestamp) => timestamp,
                    None => now,
                },
            ),
            Err(e) => {
                &&& processed matches Err(DiscoveryError::ParseError(message))
                &&& message@ == "Failed to decode Open event: "@ + e@
            },
        },
{
    if let Ok(open) = opened {
        let at = match log.block_timestamp {
            Some(timestamp) => timestamp,
            None => now,
        };
        lemma_found(
            processed->Ok_0,
            d@.lock_type,
            log.topics@[1]@,
            open.intent,
            words,
            at,
        );
    }
}

/// A log is left alone exactly if it opens an intent whose origin has more than 64 bits.
pub proof fn law_logs_left_alone(
    d: ShinobiDiscovery,
    log: Log,
    chain_id: u64,
    now: u64,
    data: &[u8],
    opened: Result<OpenEvent, String>,
    processed: Option<Result<Intent, DiscoveryError>>,
)
    requires
        data@ == log.data@,
        call_ensures(IShinobiInputSettler::decode_open, (&log.topics, data), opened),
        call_ensures(
            ShinobiDiscovery::try_process_open_event,
            (&d, &log, chain_id, now),
            processed,
        ),
    ensures
        processed is None <==> (opened matches Ok(open) && open.intent.originChainId@ > u64::MAX),
{
}

// ---------------------------------------------------------------------------
// Monitors
// ---------------------------------------------------------------------------
/// Whether an action is what a log calls for: the intent that it opens is sent, a log that opens
/// none is reported, and an origin of more than 64 bits ends monitoring.
pub open spec fn log_is_handled(
    action: MonitorAction,
    lock_type: Seq<char>,
    log: Log,
    opened: Result<OpenEvent, String>,
    words: WordsView,
    now: u64,
) -> bool {
    match opened {
        Ok(open) => if open.intent.originChainId@ <= u64::MAX {
            &&& action matches MonitorAction::Send(found)
            &&& is_found(
                found,
                lock_type,
                log.topics@[1]@,
                open.intent,
                words,
                match log.block_timestamp {
                    Some(timestamp) => timestamp,
                    None => now,
                },
            )
        } else {
            action is Abort
        },
        Err(e) => {
            &&& action matches MonitorAction::Report(DiscoveryError::ParseError(message))
            &&& message@ == "Failed to decode Open event: "@ + e@
        },
    }
}

/// What is done about a log, as a mathematical value, is what it calls for.
proof fn lemma_log_handled(
    action: MonitorAction,
    lock_type: Seq<char>,
    log: Log,
    data: &[u8],
    opened: Result<OpenEvent, String>,
    words: WordsView,
    now: u64,
)
    requires
        data@ == log.data@,
        call_ensures(IShinobiInputSettler::decode_open, (&log.topics, data), opened),
        opened matches Ok(open) ==> words_hold_sol(words, open.intent),
        action@ == log_action(lock_type, log, now),
    ensures
        log_is_handled(action, lock_type, log, opened, words, now),
        action is Abort <==> (opened matches Ok(open) && open.intent.originChainId@ > u64::MAX),
{
    if let Ok(open) = opened {
        if open.intent.originChainId@ <= u64::MAX {
            let at = match log.block_timestamp {
                Some(timestamp) => timestamp,
                None => now,
            };
            lemma_found(
                action->Send_0,
                lock_type,
                log.topics@[1]@,
                open.intent,
                words,
                at,
            );
        }
    }
}

/// A subscription asks for the `Open` events of the settler, in any block.
pub proof fn law_subscription_asks_for_open_events(
    d: ShinobiDiscovery,
    settler: Address,
    filter: LogFilter,
)
    requires
        call_ensures(ShinobiDiscovery::subscription_filter, (&d, settler), filter),
    ensures
        filter.address.bytes@ == settler.bytes@,
        filter.event_signature@ == keccak256_of(encode_utf8(OPEN_SIGNATURE@))@,
        filter.from_block is None,
        filter.to_block is None,
{
}

/// A subscribed monitor handles every log, and ends where it cannot subscribe, where the solver is
/// gone, or where it is told to.
pub proof fn law_subscribed_monitor(
    d: ShinobiDiscovery,
    chain_id: u64,
    event: SubscriptionEvent,
    now: u64,
    action: MonitorAction,
    data: &[u8],
    opened: Result<OpenEvent, String>,
    words: WordsView,
)
    requires
        call_ensures(ShinobiDiscovery::monitor_chain_ws, (&d, chain_id, event, now), action),
        event matches SubscriptionEvent::Log(log) ==> {
            &&& data@ == log.data@
            &&& call_ensures(IShinobiInputSettler::decode_open, (&log.topics, data), opened)
            &&& opened matches Ok(open) ==> words_hold_sol(words, open.intent)
        },
    ensures
        match event {
            SubscriptionEvent::Subscribed(true) => action is Wait,
            SubscriptionEvent::Subscribed(false) => action is Exit,
            SubscriptionEvent::Log(log) => log_is_handled(
                action,
                d@.lock_type,
                log,
                opened,
                words,
                now,
            ),
            SubscriptionEvent::Sent(true) => action is Wait,
            SubscriptionEvent::Sent(false) => action is Exit,
            SubscriptionEvent::Stop => action is Exit,
        },
{
    if let SubscriptionEvent::Log(log) = event {
        lemma_log_handled(action, d@.lock_type, log, data, opened, words, now);
    }
}

/// A new monitor watches the chain and the settler that it is given, and stands between two polls.
pub proof fn law_new_monitor(chain_id: u64, settler: Address, monitor: HttpMonitor)
    requires
        call_ensures(HttpMonitor::new, (chain_id, settler), monitor),
    ensures
        monitor.chain() == chain_id,
        monitor.settler() == settler.bytes@,
        monitor.phase() is Idle,
{
}

/// A poll starts by asking for the current block, and the stop signal ends monitoring.
pub proof fn law_poll_starts_or_ends(
    d: ShinobiDiscovery,
    shared: &mut Monitoring,
    monitor: &mut HttpMonitor,
    event: PollEvent,
    now: u64,
    action: MonitorAction,
)
    requires
        call_ensures(
            ShinobiDiscovery::monitor_chain_http,
            (&d, shared, monitor, event, now),
            action,
        ),
        event is Tick || event is Stop,
    ensures
        final(shared)@ == old(shared)@,
        final(monitor).chain() == old(monitor).chain(),
        final(monitor).settler() == old(monitor).settler(),
        event is Tick ==> action is GetBlockNumber && final(monitor).phase() is AwaitBlock,
        event is Stop ==> action is Exit && final(monitor).phase() is Stopped,
{
}

/// A poll asks for the logs of exactly the blocks behind the last one looked at, up to the current
/// one, where there are any: for the `Open` events of the settler. Nothing counts as looked at by
/// that.
pub proof fn law_poll_asks_for_every_new_block(
    d: ShinobiDiscovery,
    shared: &mut Monitoring,
    monitor: &mut HttpMonitor,
    event: PollEvent,
    now: u64,
    action: MonitorAction,
)
    requires
        call_ensures(
            ShinobiDiscovery::monitor_chain_http,
            (&d, shared, monitor, event, now),
            action,
        ),
        event is Block,
    ensures
        final(shared)@ == old(shared)@,
        final(monitor).chain() == old(monitor).chain(),
        final(monitor).settler() == old(monitor).settler(),
        match event {
            PollEvent::Block(Some(current)) => {
                let blocks = old(shared)@.last_blocks;
                let chain = old(monitor).chain();
                if blocks.contains_key(chain) && blocks[chain] < current {
                    &&& action matches MonitorAction::GetLogs(filter)
                    &&& filter.address.bytes@ == old(monitor).settler()
                    &&& filter.event_signature@ == keccak256_of(encode_utf8(OPEN_SIGNATURE@))@
                    &&& filter.from_block matches Some(from)
                    &&& from == blocks[chain] + 1
                    &&& filter.to_block matches Some(to)
                    &&& to == current
                    &&& final(monitor).phase() == (PhaseView::AwaitLogs { to_block: current })
                } else {
                    action is Wait && final(monitor).phase() is Idle
                }
            },
            _ => action is Wait && final(monitor).phase() is Idle,
        },
{
}

/// The logs of a poll are handled one by one in their order, and only when none is left do the
/// blocks that were asked for count as looked at, on this chain and no other. Where the chain did
/// not answer, or the solver is gone, nothing counts as looked at.
pub proof fn law_poll_handles_every_log(
    d: ShinobiDiscovery,
    shared: &mut Monitoring,
    monitor: &mut HttpMonitor,
    event: PollEvent,
    now: u64,
    action: MonitorAction,
    to_block: u64,
    logs: Seq<Log>,
    next: int,
    data: &[u8],
    opened: Result<OpenEvent, String>,
    words: WordsView,
)
    requires
        call_ensures(
            ShinobiDiscovery::monitor_chain_http,
            (&d, shared, monitor, event, now),
            action,
        ),
        match event {
            PollEvent::Logs(Some(answer)) => logs == answer@ && next == 0
                && old(monitor).phase() == (PhaseView::AwaitLogs { to_block }),
            PollEvent::Sent(true) | PollEvent::Reported => 0 <= next && old(monitor).phase() == (
            PhaseView::Delivering { to_block, logs, next }),
            _ => false,
        },
        next < logs.len() ==> {
            &&& data@ == logs[next].data@
            &&& call_ensures(
                IShinobiInputSettler::decode_open,
                (&logs[next].topics, data),
                opened,
            )
            &&& opened matches Ok(open) ==> words_hold_sol(words, open.intent)
        },
    ensures
        final(monitor).chain() == old(monitor).chain(),
        final(monitor).settler() == old(monitor).settler(),
        final(shared)@.is_monitoring == old(shared)@.is_monitoring,
        if next < logs.len() {
            &&& final(shared)@.last_blocks == old(shared)@.last_blocks
            &&& log_is_handled(action, d@.lock_type, logs[next], opened, words, now)
            &&& if action is Abort {
                final(monitor).phase() is Stopped
            } else {
                final(monitor).phase() == (PhaseView::Delivering {
                    to_block,
                    logs,
                    next: next + 1,
                })
            }
        } else {
            &&& action is Wait
            &&& final(monitor).phase() is Idle
            &&& final(shared)@.last_blocks.contains_key(old(monitor).chain())
            &&& final(shared)@.last_blocks[old(monitor).chain()] == to_block
            &&& forall|other: u64|
                #![trigger final(shared)@.last_blocks.contains_key(other)]
                #![trigger final(shared)@.last_blocks[other]]
                other != old(monitor).chain() ==> {
                    &&& final(shared)@.last_blocks.contains_key(other)
                        == old(shared)@.last_blocks.contains_key(other)
                    &&& final(shared)@.last_blocks[other] == old(shared)@.last_blocks[other]
                }
        },
{
    if next < logs.len() {
        lemma_log_handled(action, d@.lock_type, logs[next], data, opened, words, now);
    }
}

/// A poll whose question was not answered counts for nothing, and a solver that is gone ends
/// monitoring.
pub proof fn law_poll_is_given_up(
    d: ShinobiDiscovery,
    shared: &mut Monitoring,
    monitor: &mut HttpMonitor,
    event: PollEvent,
    now: u64,
    action: MonitorAction,
)
    requires
        call_ensures(
            ShinobiDiscovery::monitor_chain_http,
            (&d, shared, monitor, event, now),
            action,
        ),
        event == PollEvent::Logs(None) || event == PollEvent::Sent(false),
    ensures
        final(shared)@ == old(shared)@,
        final(monitor).chain() == old(monitor).chain(),
        final(monitor).settler() == old(monitor).settler(),
        event is Logs ==> action is Wait && final(monitor).phase() is Idle,
        event is Sent ==> action is Exit && final(monitor).phase() is Stopped,
{
}

/// How far a chain has been looked at is told as it was noted.
pub proof fn law_last_block_is_told(shared: Monitoring, chain_id: u64, block: Option<u64>)
    requires
        call_ensures(Monitoring::last_block, (&shared, chain_id), block),
    ensures
        block is Some <==> shared@.last_blocks.contains_key(chain_id),
        block matches Some(b) ==> b == shared@.last_blocks[chain_id],
{
}

// ---------------------------------------------------------------------------
// Connecting
// ---------------------------------------------------------------------------
/// The networks are connected in their order, each at the URL configured for it: by WebSocket where
/// the interval is zero, and else over HTTP, where the URL has to be one. What is missing is named.
pub proof fn law_next_network_is_connected(
    setup: DiscoverySetup,
    next: Result<Option<Connection>, DiscoveryError>,
)
    requires
        setup.wf(),
        call_ensures(DiscoverySetup::next_connection, (&setup,), next),
    ensures
        ({
            let d = setup.state();
            let n = setup.done() as int;
            let id = d.network_ids[n];
            let number = decimal(id as nat);
            if n == d.network_ids.len() {
                next matches Ok(None)
            } else if !d.networks.contains_key(id) {
                &&& next matches Err(DiscoveryError::ValidationError(message))
                &&& message@ == "Network "@ + number + " not found in configuration"@
            } else if d.polling_interval_secs == 0 {
                match d.networks[id].ws_url {
                    Some(url) => {
                        &&& next matches Ok(Some(connection))
                        &&& connection.network_id == id
                        &&& connection.kind == ProviderKind::WebSocket
                        &&& connection.url@ == url@
                    },
                    None => {
                        &&& next matches Err(DiscoveryError::Connection(message))
                        &&& message@ == "No WebSocket RPC URL configured for network "@ + number
                    },
                }
            } else {
                match d.networks[id].http_url {
                    Some(url) => match url_error_text(url@) {
                        None => {
                            &&& next matches Ok(Some(connection))
                            &&& connection.network_id == id
                            &&& connection.kind == ProviderKind::Http
                            &&& connection.url@ == url@
                        },
                        Some(why) => {
                            &&& next matches Err(DiscoveryError::Connection(message))
                            &&& message@ == "Invalid RPC URL for network "@ + number + ": "@ + why
                        },
                    },
                    None => {
                        &&& next matches Err(DiscoveryError::Connection(message))
                        &&& message@ == "No HTTP RPC URL configured for network "@ + number
                    },
                }
            }
        }),
{
}

/// A network that is connected counts as such, in the way that it was, and when polling its current
/// block is where to start. One that cannot be connected is reported, and changes nothing.
pub proof fn law_connection_is_noted(
    setup: &mut DiscoverySetup,
    outcome: ConnectOutcome,
    recorded: Result<(), DiscoveryError>,
)
    requires
        old(setup).wf(),
        old(setup).done() < old(setup).state().network_ids.len(),
        (outcome is Connected || outcome is WebSocketFailed)
            <==> old(setup).state().polling_interval_secs == 0,
        call_ensures(DiscoverySetup::record_connection, (setup, outcome), recorded),
    ensures
        ({
            let (a, b) = (old(setup).state(), final(setup).state());
            let (m, n) = (old(setup).monitoring(), final(setup).monitoring());
            let id = a.network_ids[old(setup).done() as int];
            &&& b.network_ids == a.network_ids
            &&& b.networks == a.networks
            &&& b.input_settlers == a.input_settlers
            &&& b.polling_interval_secs == a.polling_interval_secs
            &&& b.lock_type == a.lock_type
            &&& n.is_monitoring == m.is_monitoring
            &&& match outcome {
                ConnectOutcome::Connected => {
                    &&& recorded is Ok
                    &&& final(setup).done() == old(setup).done() + 1
                    &&& b.providers == a.providers.insert(id, ProviderKind::WebSocket)
                    &&& n.last_blocks == m.last_blocks
                },
                ConnectOutcome::ConnectedAt(block) => {
                    &&& recorded is Ok
                    &&& final(setup).done() == old(setup).done() + 1
                    &&& b.providers == a.providers.insert(id, ProviderKind::Http)
                    &&& n.last_blocks == m.last_blocks.insert(id, block)
                },
                ConnectOutcome::WebSocketFailed(e) => {
                    &&& recorded matches Err(DiscoveryError::Connection(message))
                    &&& message@ == "Failed to connect to WebSocket for network "@ + decimal(
                        id as nat,
                    ) + ": "@ + e@
                    &&& final(setup).done() == old(setup).done()
                    &&& b.providers == a.providers
                    &&& n.last_blocks == m.last_blocks
                },
                ConnectOutcome::BlockNumberFailed(e) => {
                    &&& recorded matches Err(DiscoveryError::Connection(message))
                    &&& message@ == "Failed to get block number for network "@ + decimal(
                        id as nat,
                    ) + ": "@ + e@
                    &&& final(setup).done() == old(setup).done()
                    &&& b.providers == a.providers
                    &&& n.last_blocks == m.last_blocks
                },
            }
        }),
{
}

/// Once all networks are connected, each of them can be watched, by WebSocket where the interval is
/// zero and else over HTTP, then with a block to start from. Nothing is watched yet.
pub proof fn law_finished_discovery_can_watch_every_network(
    setup: DiscoverySetup,
    made: (ShinobiDiscovery, Monitoring),
    i: int,
)
    requires
        setup.wf(),
        setup.done() == setup.state().network_ids.len(),
        call_ensures(DiscoverySetup::finish, (setup,), made),
        0 <= i < setup.state().network_ids.len(),
    ensures
        made.0@ == setup.state(),
        made.1@ == setup.monitoring(),
        !made.1@.is_monitoring,
        ({
            let id = made.0@.network_ids[i];
            &&& made.0@.input_settlers.contains_key(id)
            &&& made.0@.providers.contains_key(id)
            &&& made.0@.providers[id] == (if made.0@.polling_interval_secs == 0 {
                ProviderKind::WebSocket
            } else {
                ProviderKind::Http
            })
            &&& made.0@.polling_interval_secs != 0 ==> made.1@.last_blocks.contains_key(id)
        }),
{
    let ids = made.0@.network_ids;
    assert(ids.take(ids.len() as int) =~= ids);
    assert(ids.contains(ids[i]));
    assert(ids.to_set().contains(ids[i]));
}

// ---------------------------------------------------------------------------
// Starting and stopping
// ---------------------------------------------------------------------------
/// What the tasks for networks hold.
proof fn lemma_tasks(d: DiscoveryView, ids: Seq<u64>)
    ensures
        ({
            let (tasks, error) = tasks_for(d, ids);
            &&& tasks.len() <= ids.len()
            &&& error is None <==> tasks.len() == ids.len()
            &&& forall|i: int|
                0 <= i < tasks.len() ==> task_for(d, ids[i]) == Ok::<TaskView, ErrorView>(
                    #[trigger] tasks[i],
                )
            &&& error matches Some(e) ==> task_for(d, ids[tasks.len() as int]) == Err::<
                TaskView,
                ErrorView,
            >(e)
        }),
    decreases ids.len(),
{
    if ids.len() > 0 {
        let front = ids.drop_last();
        lemma_tasks(d, front);
        let (before, stopped) = tasks_for(d, front);
        let (tasks, error) = tasks_for(d, ids);
        assert forall|i: int| 0 <= i < tasks.len() implies task_for(d, ids[i]) == Ok::<
            TaskView,
            ErrorView,
        >(#[trigger] tasks[i]) by {
            if i < before.len() {
                assert(tasks[i] == before[i]);
                assert(ids[i] == front[i]);
            }
        }
        if stopped is Some {
            assert(ids[before.len() as int] == front[before.len() as int]);
        }
    }
}

/// Starting gives a task for every network in order, with its settler and its way of watching, and
/// turns monitoring on. It stops at the first network that lacks a settler or a provider. Where
/// monitoring is on already, nothing is given and nothing changes.
pub proof fn law_start_gives_every_task(
    d: ShinobiDiscovery,
    shared: &mut Monitoring,
    tasks: Vec<MonitorTask>,
    started: Result<(), DiscoveryError>,
)
    requires
        call_ensures(ShinobiDiscovery::start_monitoring, (&d, shared), (tasks, started)),
    ensures
        final(shared)@.is_monitoring,
        final(shared)@.last_blocks == old(shared)@.last_blocks,
        if old(shared)@.is_monitoring {
            &&& tasks@.len() == 0
            &&& started matches Err(DiscoveryError::AlreadyMonitoring)
        } else {
            let ids = d@.network_ids;
            let n = tasks@.len() as int;
            &&& n <= ids.len()
            &&& forall|i: int|
                0 <= i < n ==> {
                    &&& (#[trigger] tasks@[i]).chain_id == ids[i]
                    &&& d@.input_settlers.contains_key(ids[i])
                    &&& tasks@[i].settler_address.bytes@ == d@.input_settlers[ids[i]]
                    &&& d@.providers.contains_key(ids[i])
                    &&& tasks@[i].kind == d@.providers[ids[i]]
                }
            &&& match started {
                Ok(_) => n == ids.len(),
                Err(DiscoveryError::ValidationError(message)) => {
                    &&& n < ids.len()
                    &&& !d@.input_settlers.contains_key(ids[n])
                    &&& message@ == "No settler address for network "@ + decimal(ids[n] as nat)
                },
                Err(DiscoveryError::Connection(message)) => {
                    &&& n < ids.len()
                    &&& d@.input_settlers.contains_key(ids[n])
                    &&& !d@.providers.contains_key(ids[n])
                    &&& message@ == "No provider for network "@ + decimal(ids[n] as nat)
                },
                Err(_) => false,
            }
        },
{
    if !old(shared)@.is_monitoring {
        let ids = d@.network_ids;
        lemma_tasks(d@, ids);
        let view = tasks_view(tasks@);
        assert(view.len() == tasks@.len());
        assert forall|i: int| 0 <= i < tasks@.len() implies {
            &&& (#[trigger] tasks@[i]).chain_id == ids[i]
            &&& d@.input_settlers.contains_key(ids[i])
            &&& tasks@[i].settler_address.bytes@ == d@.input_settlers[ids[i]]
            &&& d@.providers.contains_key(ids[i])
            &&& tasks@[i].kind == d@.providers[ids[i]]
        } by {
            assert(view[i] == tasks@[i]@);
        }
    } else {
        assert(tasks_view(tasks@).len() == tasks@.len());
    }
}

/// Stopping turns monitoring off, says whether it was on, and forgets nothing.
pub proof fn law_stop_turns_monitoring_off(
    d: ShinobiDiscovery,
    shared: &mut Monitoring,
    was_on: bool,
)
    requires
        call_ensures(ShinobiDiscovery::stop_monitoring, (&d, shared), was_on),
    ensures
        was_on == old(shared)@.is_monitoring,
        !final(shared)@.is_monitoring,
        final(shared)@.last_blocks == old(shared)@.last_blocks,
{
}

/// A copy goes by the same networks, settlers, interval and lock type, and has no providers.
pub proof fn law_copy_goes_by_the_same(
    d: ShinobiDiscovery,
    copy: ShinobiDiscovery,
    interval: u64,
)
    requires
        call_ensures(<ShinobiDiscovery as Clone>::clone, (&d,), copy),
        call_ensures(ShinobiDiscovery::polling_interval, (&copy,), interval),
    ensures
        copy@.network_ids == d@.network_ids,
        copy@.networks == d@.networks,
        copy@.input_settlers == d@.input_settlers,
        copy@.lock_type == d@.lock_type,
        copy@.polling_interval_secs == d@.polling_interval_secs,
        copy@.providers.dom() == Set::<u64>::empty(),
        interval == d@.polling_interval_secs,
{
    assert(copy@.providers.dom() =~= Set::<u64>::empty());
}

} // verus!
