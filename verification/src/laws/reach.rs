//! What can be called: every operation takes every value that it is meant for.

use std::collections::HashMap;
use vstd::prelude::*;
use crate::discovery::{
    ConnectOutcome, DiscoveryError, DiscoverySetup, Log, Monitoring, Registry as DiscoveryRegistry,
    ShinobiDiscovery, ShinobiDiscoveryConfig,
};
use crate::intent::ShinobiIntent;
use crate::monitor::{HttpMonitor, PhaseView, PollEvent, SubscriptionEvent};
use crate::order::{OrderDraft, OrderError, ShinobiOrderConfig, ShinobiOrderImpl};
use crate::primitives::{Address, U256};
use crate::settler::{
    IShinobiInputSettler, IShinobiOutputSettler, OpenEvent, ShinobiIntentSol, SolveParams,
};
use crate::text::SolverAddress;
use crate::types::{
    ExecutionParams, FillProof, NetworksConfig, Order, OracleRoutes, Transaction,
};

verus! {

/// Every intent can be read, whatever it holds. Only its destination has to fit in 64 bits before
/// it can be told.
pub proof fn law_every_intent_can_be_read(intent: ShinobiIntent)
    ensures
        call_requires(ShinobiIntent::order_identifier, (&intent,)),
        call_requires(ShinobiIntent::validate, (&intent,)),
        call_requires(ShinobiIntent::is_withdrawal, (&intent,)),
        call_requires(ShinobiIntent::is_deposit, (&intent,)),
        call_requires(ShinobiIntent::is_native_eth_output, (&intent,)),
        call_requires(ShinobiIntent::output_amount, (&intent,)),
        call_requires(ShinobiIntent::parse_available_inputs, (&intent,)),
        call_requires(ShinobiIntent::parse_requested_outputs, (&intent,)),
        call_requires(ShinobiIntent::input_oracle, (&intent,)),
        call_requires(ShinobiIntent::destination_chain_ids, (&intent,)),
        intent.outputs@.len() == 0 || intent.outputs@[0].chain_id@ <= u64::MAX ==> call_requires(
            ShinobiIntent::destination_chain_id,
            (&intent,),
        ),
{
    if intent.outputs@.len() > 0 {
        assert(intent@.outputs[0] == intent.outputs@[0]@);
    }
}

/// Every intent can be encoded, all bytes can be tried, and every log can be looked at. A Solidity
/// form can be taken back where its origin fits in 64 bits.
pub proof fn law_everything_can_be_encoded_and_decoded(
    intent: ShinobiIntent,
    sol: ShinobiIntentSol,
    data: &[u8],
    params: Vec<SolveParams>,
    destination: [u8; 32],
    topics: Vec<[u8; 32]>,
    n: U256,
)
    ensures
        call_requires(<ShinobiIntentSol as From<ShinobiIntent>>::from, (intent,)),
        call_requires(ShinobiIntentSol::abi_encode, (&sol,)),
        call_requires(ShinobiIntentSol::abi_decode, (data,)),
        call_requires(IShinobiOutputSettler::fill_call, (&sol,)),
        call_requires(IShinobiInputSettler::finalise_call, (&sol, &params, destination)),
        call_requires(IShinobiInputSettler::decode_open, (&topics, data)),
        sol.originChainId@ <= u64::MAX ==> call_requires(ShinobiIntent::from_sol, (sol,)),
        n.hi == 0 && n.lo <= u64::MAX ==> call_requires(U256::to_u64, (&n,)),
{
}

/// Order implementations and discovery can be made from any configuration.
pub proof fn law_every_configuration_can_be_tried(
    input_table: Vec<(String, String)>,
    output_table: Vec<(String, String)>,
    config: ShinobiOrderConfig,
    networks: NetworksConfig,
    routes: OracleRoutes,
    settlers: HashMap<u64, Address>,
    interval: Option<u64>,
    lock_type: String,
    discovery: ShinobiDiscoveryConfig,
)
    ensures
        call_requires(ShinobiOrderImpl::new, (&input_table, &output_table, networks, routes)),
        call_requires(ShinobiOrderImpl::from_config, (&config, networks, routes)),
        call_requires(ShinobiDiscovery::new, (settlers, networks, interval, lock_type)),
        call_requires(DiscoveryRegistry::factory, (&discovery, networks)),
{
}

/// An intent can be checked, filled and drafted as long as its destination fits in 64 bits or an
/// earlier check refuses it.
pub proof fn law_every_intent_in_reach_can_be_worked_on(
    order_impl: ShinobiOrderImpl,
    intent: ShinobiIntent,
    order_bytes: &[u8],
    now: u64,
    formed: Result<(), String>,
)
    requires
        call_ensures(ShinobiIntent::validate, (&intent,), formed),
        formed is Err || intent.fill_deadline <= now % 0x1_0000_0000 || intent.expires <= now
            % 0x1_0000_0000 || !order_impl@.inputs.contains_key(intent.origin_chain_id)
            || intent.outputs@[0].chain_id@ <= u64::MAX,
    ensures
        call_requires(ShinobiOrderImpl::can_check, (&order_impl, &intent, now)),
        call_requires(ShinobiOrderImpl::validate_intent, (&order_impl, &intent, now)),
        call_requires(ShinobiOrderImpl::fill_transaction, (&order_impl, intent, now)),
        call_requires(ShinobiOrderImpl::draft_order, (&order_impl, intent, order_bytes, now)),
{
    if intent.outputs@.len() > 0 {
        assert(intent@.outputs[0] == intent.outputs@[0]@);
    }
}

/// An intent can be claimed for every solver whose address has twenty bytes.
pub proof fn law_every_solver_can_claim(
    order_impl: ShinobiOrderImpl,
    intent: ShinobiIntent,
    solver: SolverAddress,
    fill_proof: FillProof,
)
    requires
        solver.0@.len() == 20,
    ensures
        call_requires(
            ShinobiOrderImpl::claim_transaction,
            (&order_impl, intent, &solver, &fill_proof),
        ),
{
}

/// Every order can be tried, and so can all bytes; and every draft can be finished.
pub proof fn law_every_order_can_be_tried(
    order_impl: ShinobiOrderImpl,
    order: Order,
    params: ExecutionParams,
    fill_proof: FillProof,
    order_bytes: &[u8],
    draft: OrderDraft,
    answer: Result<Vec<u8>, String>,
    given: Option<ShinobiIntent>,
    solver: SolverAddress,
    now: u64,
)
    ensures
        call_requires(ShinobiOrderImpl::try_parse_intent, (&order_impl, &order)),
        call_requires(
            ShinobiOrderImpl::try_generate_fill_transaction,
            (&order_impl, &order, &params, now),
        ),
        call_requires(
            ShinobiOrderImpl::try_generate_claim_transaction,
            (&order_impl, &order, &fill_proof),
        ),
        call_requires(ShinobiOrderImpl::try_prepare_order, (&order_impl, order_bytes, now)),
        call_requires(
            ShinobiOrderImpl::finish_order,
            (&order_impl, draft, answer, given, &solver, now),
        ),
{
}

/// An order that is read can be parsed, and filled and claimed where nothing is withheld.
pub proof fn law_every_order_in_reach_can_be_worked_on(
    order_impl: ShinobiOrderImpl,
    order: Order,
    params: ExecutionParams,
    fill_proof: FillProof,
    order_bytes: &[u8],
    now: u64,
    parsed: Option<Result<ShinobiIntent, OrderError>>,
    filled: Option<Result<Transaction, OrderError>>,
    claimed: Option<Result<Transaction, OrderError>>,
    draft: Option<Result<OrderDraft, OrderError>>,
)
    requires
        call_ensures(ShinobiOrderImpl::try_parse_intent, (&order_impl, &order), parsed),
        call_ensures(
            ShinobiOrderImpl::try_generate_fill_transaction,
            (&order_impl, &order, &params, now),
            filled,
        ),
        call_ensures(
            ShinobiOrderImpl::try_generate_claim_transaction,
            (&order_impl, &order, &fill_proof),
            claimed,
        ),
        call_ensures(ShinobiOrderImpl::try_prepare_order, (&order_impl, order_bytes, now), draft),
    ensures
        parsed is Some ==> call_requires(ShinobiOrderImpl::parse_intent, (&order_impl, &order)),
        filled is Some ==> call_requires(
            ShinobiOrderImpl::generate_fill_transaction,
            (&order_impl, &order, &params, now),
        ),
        claimed is Some ==> call_requires(
            ShinobiOrderImpl::generate_claim_transaction,
            (&order_impl, &order, &fill_proof),
        ),
        draft is Some ==> call_requires(
            ShinobiOrderImpl::prepare_order,
            (&order_impl, order_bytes, now),
        ),
{
}

/// Every log can be tried, and processed where what it opens comes from a chain of 64 bits.
pub proof fn law_every_log_can_be_tried(
    d: ShinobiDiscovery,
    log: Log,
    chain_id: u64,
    now: u64,
    event: SubscriptionEvent,
    order_id: [u8; 32],
    sol: ShinobiIntentSol,
    data: &[u8],
    opened: Result<OpenEvent, String>,
)
    requires
        data@ == log.data@,
        call_ensures(IShinobiInputSettler::decode_open, (&log.topics, data), opened),
        opened matches Ok(open) ==> open.intent.originChainId@ <= u64::MAX,
    ensures
        call_requires(ShinobiDiscovery::try_process_open_event, (&d, &log, chain_id, now)),
        call_requires(ShinobiDiscovery::process_open_event, (&d, &log, chain_id, now)),
        call_requires(ShinobiDiscovery::convert_decoded, (&d, opened, now)),
        call_requires(ShinobiDiscovery::monitor_chain_ws, (&d, chain_id, event, now)),
        sol.originChainId@ <= u64::MAX ==> call_requires(
            ShinobiDiscovery::convert_to_intent,
            (&d, order_id, sol, now),
        ),
{
}

/// A polling monitor takes a tick and the stop signal between two polls, and the answer to each
/// question that it has asked.
pub proof fn law_every_answer_is_taken(
    d: ShinobiDiscovery,
    shared: &mut Monitoring,
    monitor: &mut HttpMonitor,
    event: PollEvent,
    now: u64,
)
    requires
        match old(monitor).phase() {
            PhaseView::Idle => event is Tick || event is Stop,
            PhaseView::AwaitBlock => event is Block,
            PhaseView::AwaitLogs { to_block: _ } => event is Logs,
            PhaseView::Delivering { to_block: _, logs, next } => 0 <= next <= logs.len() && (
            event is Sent || event is Reported),
            PhaseView::Stopped => false,
        },
    ensures
        call_requires(
            ShinobiDiscovery::monitor_chain_http,
            (&d, shared, monitor, event, now),
        ),
{
}

/// While networks are left, the next can be connected in the way that the interval calls for; once
/// none is, discovery can start. Setting up keeps to that at every step.
pub proof fn law_setup_can_go_on(
    setup: DiscoverySetup,
    going: &mut DiscoverySetup,
    outcome: ConnectOutcome,
)
    requires
        setup.wf(),
        old(going).wf(),
        old(going).done() < old(going).state().network_ids.len(),
        (outcome is Connected || outcome is WebSocketFailed)
            <==> old(going).state().polling_interval_secs == 0,
    ensures
        call_requires(DiscoverySetup::next_connection, (&setup,)),
        setup.done() == setup.state().network_ids.len() ==> call_requires(
            DiscoverySetup::finish,
            (setup,),
        ),
        call_requires(DiscoverySetup::record_connection, (going, outcome)),
{
}

/// A setup is sound from the start and stays so, so that it can always go on.
pub proof fn law_setup_stays_sound(
    settlers: HashMap<u64, Address>,
    networks: NetworksConfig,
    interval: Option<u64>,
    lock_type: String,
    setup: DiscoverySetup,
    going: &mut DiscoverySetup,
    outcome: ConnectOutcome,
    recorded: Result<(), DiscoveryError>,
)
    requires
        call_ensures(
            ShinobiDiscovery::new,
            (settlers, networks, interval, lock_type),
            Ok::<DiscoverySetup, DiscoveryError>(setup),
        ),
        call_ensures(DiscoverySetup::record_connection, (going, outcome), recorded),
    ensures
        setup.wf(),
        final(going).wf(),
{
}

/// Monitoring can be started and stopped at any time.
pub proof fn law_monitoring_can_be_started_and_stopped(
    d: ShinobiDiscovery,
    shared: &mut Monitoring,
)
    ensures
        call_requires(ShinobiDiscovery::start_monitoring, (&d, shared)),
        call_requires(ShinobiDiscovery::stop_monitoring, (&d, shared)),
{
}

} // verus!
