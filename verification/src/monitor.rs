//! Watching a chain for opened intents: by polling over HTTP, or by a subscription.

use vstd::prelude::*;
use vstd::utf8::encode_utf8;
use crate::abi::keccak256_of;
use crate::discovery::{
    DiscoveryError, DiscoveryView, ErrorView, found_at, found_intent, Log, log_outcome, Monitoring,
    MonitoringView, opened_origin_fits, process_outcome, ShinobiDiscovery,
};
use crate::primitives::Address;
use crate::settler::{IShinobiInputSettler, OPEN_SIGNATURE, signature_hash};
use crate::types::{FoundView, Intent, IntentMetadata};

verus! {

/// Which logs to ask a chain for.
#[derive(Debug, Clone, Copy, PartialEq, Eq)]
pub struct LogFilter {
    /// The contract that wrote them.
    pub address: Address,
    /// Their first topic.
    pub event_signature: [u8; 32],
    /// The first block to look at.
    pub from_block: Option<u64>,
    /// The last block to look at.
    pub to_block: Option<u64>,
}

/// A filter as a mathematical value.
#[verifier::ext_equal]
pub struct FilterView {
    pub address: Seq<u8>,
    pub event_signature: Seq<u8>,
    pub from_block: Option<u64>,
    pub to_block: Option<u64>,
}

impl View for LogFilter {
    type V = FilterView;

    open spec fn view(&self) -> FilterView {
        FilterView {
            address: self.address@,
            event_signature: self.event_signature@,
            from_block: self.from_block,
            to_block: self.to_block,
        }
    }
}

/// The filter for the `Open` events of a settler in a range of blocks.
pub open spec fn open_filter(
    settler: Seq<u8>,
    from_block: Option<u64>,
    to_block: Option<u64>,
) -> FilterView {
    FilterView {
        address: settler,
        event_signature: signature_hash(OPEN_SIGNATURE@),
        from_block,
        to_block,
    }
}

/// What a monitor is to do next.
#[derive(Debug, Clone, PartialEq)]
pub enum MonitorAction {
    /// Wait for the next tick, log or stop signal.
    Wait,
    /// Ask the chain for its current block.
    GetBlockNumber,
    /// Ask the chain for logs.
    GetLogs(LogFilter),
    /// Hand an intent to the solver.
    Send(Intent),
    /// Write down what is wrong with a log, which is passed over.
    Report(DiscoveryError),
    /// Be done.
    Exit,
    /// Give up: the chain of an intent has an identifier that does not fit in 64 bits.
    Abort,
}

/// What a monitor is to do next, as a mathematical value.
pub enum ActionView {
    Wait,
    GetBlockNumber,
    GetLogs(FilterView),
    Send(FoundView),
    Report(ErrorView),
    Exit,
    Abort,
}

impl View for MonitorAction {
    type V = ActionView;

    open spec fn view(&self) -> ActionView {
        match self {
            MonitorAction::Wait => ActionView::Wait,
            MonitorAction::GetBlockNumber => ActionView::GetBlockNumber,
            MonitorAction::GetLogs(filter) => ActionView::GetLogs(filter@),
            MonitorAction::Send(intent) => ActionView::Send(intent@),
            MonitorAction::Report(e) => ActionView::Report(e@),
            MonitorAction::Exit => ActionView::Exit,
            MonitorAction::Abort => ActionView::Abort,
        }
    }
}

/// The filter for the `Open` events of a settler in a range of blocks.
fn make_filter(settler: Address, from_block: Option<u64>, to_block: Option<u64>) -> (filter:
    LogFilter)
    ensures
        filter@ == open_filter(settler@, from_block, to_block),
{
    LogFilter {
        address: settler,
        event_signature: IShinobiInputSettler::open_signature_hash(),
        from_block,
        to_block,
    }
}

// ---------------------------------------------------------------------------
// Subscription
// ---------------------------------------------------------------------------
/// What a subscribed monitor hears.
#[derive(Debug, Clone, PartialEq, Eq)]
pub enum SubscriptionEvent {
    /// Whether the subscription could be made.
    Subscribed(bool),
    /// A log came in.
    Log(Log),
    /// Whether the solver took the intent.
    Sent(bool),
    /// The signal to stop.
    Stop,
}

/// What a monitor does about a log: it hands on the intent that the log opens, or writes down why
/// it opens none. It gives up where the origin chain does not fit in 64 bits.
pub open spec fn log_action(lock_type: Seq<char>, log: Log, now: u64) -> ActionView {
    if !opened_origin_fits(log) {
        ActionView::Abort
    } else {
        match process_outcome(lock_type, log, now) {
            Ok(found) => ActionView::Send(found),
            Err(e) => ActionView::Report(e),
        }
    }
}

/// What a subscribed monitor does about what it hears.
pub open spec fn subscription_action(
    lock_type: Seq<char>,
    event: SubscriptionEvent,
    now: u64,
) -> ActionView {
    match event {
        SubscriptionEvent::Subscribed(made) => if made {
            ActionView::Wait
        } else {
            ActionView::Exit
        },
        SubscriptionEvent::Log(log) => log_action(lock_type, log, now),
        SubscriptionEvent::Sent(taken) => if taken {
            ActionView::Wait
        } else {
            ActionView::Exit
        },
        SubscriptionEvent::Stop => ActionView::Exit,
    }
}

impl ShinobiDiscovery {
    /// What to subscribe to on a chain.
    pub fn subscription_filter(&self, settler_address: Address) -> (filter: LogFilter)
        ensures
            filter@ == open_filter(settler_address@, None, None),
    {
        make_filter(settler_address, None, None)
    }

    /// What to do about a log.
    fn take_log(&self, log: &Log, chain_id: u64, now: u64) -> (action: MonitorAction)
        ensures
            action@ == log_action(self@.lock_type, *log, now),
    {
        match self.try_process_open_event(log, chain_id, now) {
            Some(Ok(intent)) => MonitorAction::Send(intent),
            Some(Err(e)) => MonitorAction::Report(e),
            None => MonitorAction::Abort,
        }
    }

    /// Watches a chain by subscription: what to do about what was heard. A log that opens no
    /// intent is passed over, but for a report.
    pub fn monitor_chain_ws(&self, chain_id: u64, event: SubscriptionEvent, now: u64) -> (action:
        MonitorAction)
        ensures
            action@ == subscription_action(self@.lock_type, event, now),
    {
        match event {
            SubscriptionEvent::Subscribed(made) => if made {
                MonitorAction::Wait
            } else {
                MonitorAction::Exit
            },
            SubscriptionEvent::Log(log) => self.take_log(&log, chain_id, now),
            SubscriptionEvent::Sent(taken) => if taken {
                MonitorAction::Wait
            } else {
                MonitorAction::Exit
            },
            SubscriptionEvent::Stop => MonitorAction::Exit,
        }
    }
}

// ---------------------------------------------------------------------------
// Polling
// ---------------------------------------------------------------------------
/// How far a poll has come.
#[derive(Debug, Clone, PartialEq, Eq)]
pub enum PollPhase {
    /// Between two polls.
    Idle,
    /// The chain was asked for its current block.
    AwaitBlock,
    /// The chain was asked for the logs up to a block.
    AwaitLogs { to_block: u64 },
    /// The logs up to a block are being handed on; those before `next` are done with.
    Delivering { to_block: u64, logs: Vec<Log>, next: usize },
    /// Monitoring is over.
    Stopped,
}

/// How far a poll has come, as a mathematical value.
#[verifier::ext_equal]
pub enum PhaseView {
    Idle,
    AwaitBlock,
    AwaitLogs { to_block: u64 },
    Delivering { to_block: u64, logs: Seq<Log>, next: int },
    Stopped,
}

impl View for PollPhase {
    type V = PhaseView;

    open spec fn view(&self) -> PhaseView {
        match self {
            PollPhase::Idle => PhaseView::Idle,
            PollPhase::AwaitBlock => PhaseView::AwaitBlock,
            PollPhase::AwaitLogs { to_block } => PhaseView::AwaitLogs { to_block: *to_block },
            PollPhase::Delivering { to_block, logs, next } => PhaseView::Delivering {
                to_block: *to_block,
                logs: logs@,
                next: *next as int,
            },
            PollPhase::Stopped => PhaseView::Stopped,
        }
    }
}

/// What a polling monitor hears.
#[derive(Debug, Clone, PartialEq, Eq)]
pub enum PollEvent {
    /// It is time for the next poll.
    Tick,
    /// The chain's current block, or nothing where the chain did not answer.
    Block(Option<u64>),
    /// The logs asked for, or nothing where the chain did not answer.
    Logs(Option<Vec<Log>>),
    /// Whether the solver took the intent.
    Sent(bool),
    /// What was wrong with a log has been written down.
    Reported,
    /// The signal to stop.
    Stop,
}

/// Whether an event can come in a phase. Ticks and the stop signal are only listened to between
/// two polls.
pub open spec fn event_fits(phase: PhaseView, event: PollEvent) -> bool {
    match event {
        PollEvent::Tick => phase is Idle,
        PollEvent::Stop => phase is Idle,
        PollEvent::Block(_) => phase is AwaitBlock,
        PollEvent::Logs(_) => phase is AwaitLogs,
        PollEvent::Sent(_) => phase is Delivering,
        PollEvent::Reported => phase is Delivering,
    }
}

/// The block that a poll starts after: the last one looked at, or else the current one.
pub open spec fn start_block(m: MonitoringView, chain_id: u64, current: u64) -> u64 {
    if m.last_blocks.contains_key(chain_id) {
        m.last_blocks[chain_id]
    } else {
        current
    }
}

/// What a step of polling leads to.
pub struct PollStep {
    pub phase: PhaseView,
    pub monitoring: MonitoringView,
    pub action: ActionView,
}

/// The logs from `next` on are taken one by one. Only when none is left does the chain count as
/// looked at up to the block.
pub open spec fn deliver(
    d: DiscoveryView,
    m: MonitoringView,
    chain_id: u64,
    to_block: u64,
    logs: Seq<Log>,
    next: int,
    now: u64,
) -> PollStep {
    if next >= logs.len() {
        PollStep {
            phase: PhaseView::Idle,
            monitoring: MonitoringView {
                last_blocks: m.last_blocks.insert(chain_id, to_block),
                ..m
            },
            action: ActionView::Wait,
        }
    } else if !opened_origin_fits(logs[next]) {
        PollStep { phase: PhaseView::Stopped, monitoring: m, action: ActionView::Abort }
    } else {
        PollStep {
            phase: PhaseView::Delivering { to_block, logs, next: next + 1 },
            monitoring: m,
            action: log_action(d.lock_type, logs[next], now),
        }
    }
}

/// What a polling monitor does about what it hears.
pub open spec fn poll_step(
    d: DiscoveryView,
    m: MonitoringView,
    chain_id: u64,
    settler: Seq<u8>,
    phase: PhaseView,
    event: PollEvent,
    now: u64,
) -> PollStep {
    let idle = PollStep { phase: PhaseView::Idle, monitoring: m, action: ActionView::Wait };
    let exit = PollStep { phase: PhaseView::Stopped, monitoring: m, action: ActionView::Exit };
    match event {
        PollEvent::Tick => PollStep {
            phase: PhaseView::AwaitBlock,
            monitoring: m,
            action: ActionView::GetBlockNumber,
        },
        PollEvent::Stop => exit,
        PollEvent::Block(None) => idle,
        PollEvent::Block(Some(current)) => {
            let last = start_block(m, chain_id, current);
            if current <= last {
                idle
            } else {
                PollStep {
                    phase: PhaseView::AwaitLogs { to_block: current },
                    monitoring: m,
                    action: ActionView::GetLogs(
                        open_filter(settler, Some((last + 1) as u64), Some(current)),
                    ),
                }
            }
        },
        PollEvent::Logs(None) => idle,
        PollEvent::Logs(Some(logs)) => deliver(
            d,
            m,
            chain_id,
            phase->AwaitLogs_to_block,
            logs@,
            0,
            now,
        ),
        PollEvent::Sent(false) => exit,
        PollEvent::Sent(true) | PollEvent::Reported => deliver(
            d,
            m,
            chain_id,
            phase->Delivering_to_block,
            phase->Delivering_logs,
            phase->Delivering_next,
            now,
        ),
    }
}

/// Watches one chain by polling.
#[derive(Debug)]
pub struct HttpMonitor {
    chain_id: u64,
    settler_address: Address,
    phase: PollPhase,
}

impl HttpMonitor {
    /// The chain that is watched.
    pub closed spec fn chain(&self) -> u64 {
        self.chain_id
    }

    /// The settler whose events are looked for.
    pub closed spec fn settler(&self) -> Seq<u8> {
        self.settler_address@
    }

    /// How far the current poll has come.
    pub closed spec fn phase(&self) -> PhaseView {
        self.phase@
    }

    /// What is done with of the logs at hand lies within them.
    pub open spec fn wf(&self) -> bool {
        self.phase() matches PhaseView::Delivering { logs, next, .. } ==> 0 <= next <= logs.len()
    }

    /// A monitor for a chain.
    pub fn new(chain_id: u64, settler_address: Address) -> (monitor: HttpMonitor)
        ensures
            monitor.wf(),
            monitor.chain() == chain_id,
            monitor.settler() == settler_address@,
            monitor.phase() == PhaseView::Idle,
    {
        HttpMonitor { chain_id, settler_address, phase: PollPhase::Idle }
    }
}

impl ShinobiDiscovery {
    /// Takes the log at `next`, or ends the poll where none is left.
    fn deliver_logs(
        &self,
        shared: &mut Monitoring,
        monitor: &mut HttpMonitor,
        to_block: u64,
        logs: Vec<Log>,
        next: usize,
        now: u64,
    ) -> (action: MonitorAction)
        requires
            next <= logs@.len(),
        ensures
            final(monitor).wf(),
            final(monitor).chain() == old(monitor).chain(),
            final(monitor).settler() == old(monitor).settler(),
            ({
                let step = deliver(
                    self@,
                    old(shared)@,
                    old(monitor).chain(),
                    to_block,
                    logs@,
                    next as int,
                    now,
                );
                &&& final(monitor).phase() == step.phase
                &&& final(shared)@ == step.monitoring
                &&& action@ == step.action
            }),
    {
        if next < logs.len() {
            let action = self.take_log(&logs[next], monitor.chain_id, now);
            if let MonitorAction::Abort = action {
                monitor.phase = PollPhase::Stopped;
            } else {
                monitor.phase = PollPhase::Delivering { to_block, logs, next: next + 1 };
            }
            return action;
        }
        shared.set_last_block(monitor.chain_id, to_block);
        monitor.phase = PollPhase::Idle;
        MonitorAction::Wait
    }

    /// Watches a chain by polling: what to do about what was heard.
    pub fn monitor_chain_http(
        &self,
        shared: &mut Monitoring,
        monitor: &mut HttpMonitor,
        event: PollEvent,
        now: u64,
    ) -> (action: MonitorAction)
        requires
            old(monitor).wf(),
            event_fits(old(monitor).phase(), event),
        ensures
            final(monitor).wf(),
            final(monitor).chain() == old(monitor).chain(),
            final(monitor).settler() == old(monitor).settler(),
            ({
                let step = poll_step(
                    self@,
                    old(shared)@,
                    old(monitor).chain(),
                    old(monitor).settler(),
                    old(monitor).phase(),
                    event,
                    now,
                );
                &&& final(monitor).phase() == step.phase
                &&& final(shared)@ == step.monitoring
                &&& action@ == step.action
            }),
    {
        match event {
            PollEvent::Tick => {
                monitor.phase = PollPhase::AwaitBlock;
                MonitorAction::GetBlockNumber
            },
            PollEvent::Stop => {
                monitor.phase = PollPhase::Stopped;
                MonitorAction::Exit
            },
            PollEvent::Block(None) => {
                monitor.phase = PollPhase::Idle;
                MonitorAction::Wait
            },
            PollEvent::Block(Some(current)) => {
                let last: u64 = match shared.last_block(monitor.chain_id) {
                    Some(last) => last,
                    None => current,
                };
                if current <= last {
                    monitor.phase = PollPhase::Idle;
                    MonitorAction::Wait
                } else {
                    monitor.phase = PollPhase::AwaitLogs { to_block: current };
                    MonitorAction::GetLogs(
                        make_filter(monitor.settler_address, Some(last + 1), Some(current)),
                    )
                }
            },
            PollEvent::Logs(None) => {
                monitor.phase = PollPhase::Idle;
                MonitorAction::Wait
            },
            PollEvent::Logs(Some(logs)) => {
                let to_block: u64 = match &monitor.phase {
                    PollPhase::AwaitLogs { to_block } => *to_block,
                    _ => 0,
                };
                self.deliver_logs(shared, monitor, to_block, logs, 0, now)
            },
            PollEvent::Sent(false) => {
                monitor.phase = PollPhase::Stopped;
                MonitorAction::Exit
            },
            PollEvent::Sent(true) | PollEvent::Reported => {
                let mut phase = PollPhase::Idle;
                std::mem::swap(&mut phase, &mut monitor.phase);
                match phase {
                    PollPhase::Delivering { to_block, logs, next } => self.deliver_logs(
                        shared,
                        monitor,
                        to_block,
                        logs,
                        next,
                        now,
                    ),
                    _ => MonitorAction::Wait,
                }
            },
        }
    }
}

// ---------------------------------------------------------------------------
// Laws
// ---------------------------------------------------------------------------
/// The block that a poll under way reaches up to, if one is.
pub open spec fn block_under_way(phase: PhaseView) -> Option<u64> {
    match phase {
        PhaseView::AwaitLogs { to_block } => Some(to_block),
        PhaseView::Delivering { to_block, .. } => Some(to_block),
        _ => None,
    }
}

/// Whether a poll under way reaches beyond what has been looked at, on a chain of which that is
/// known.
pub open spec fn poll_in_order(m: MonitoringView, chain_id: u64, phase: PhaseView) -> bool {
    block_under_way(phase) matches Some(to_block) ==> m.last_blocks.contains_key(chain_id)
        && m.last_blocks[chain_id] < to_block
}

/// Polling only moves forward: what has been looked at of a chain never shrinks, nothing changes
/// for other chains, no chain comes in or drops out, and a poll under way always reaches beyond
/// what has been looked at.
pub proof fn law_polling_moves_forward(
    d: DiscoveryView,
    m: MonitoringView,
    chain_id: u64,
    settler: Seq<u8>,
    phase: PhaseView,
    event: PollEvent,
    now: u64,
)
    requires
        event_fits(phase, event),
        poll_in_order(m, chain_id, phase),
    ensures
        ({
            let step = poll_step(d, m, chain_id, settler, phase, event, now);
            &&& poll_in_order(step.monitoring, chain_id, step.phase)
            &&& m.last_blocks.contains_key(chain_id) ==> step.monitoring.last_blocks.contains_key(
                chain_id,
            ) && step.monitoring.last_blocks[chain_id] >= m.last_blocks[chain_id]
            &&& step.monitoring.last_blocks.dom() == m.last_blocks.dom()
            &&& forall|other: u64|
                other != chain_id ==> step.monitoring.last_blocks.contains_key(other)
                    == m.last_blocks.contains_key(other) && #[trigger]
                step.monitoring.last_blocks[other] == m.last_blocks[other]
            &&& step.monitoring == (MonitoringView {
                last_blocks: step.monitoring.last_blocks,
                ..m
            })
        }),
{
    let step = poll_step(d, m, chain_id, settler, phase, event, now);
    assert(step.monitoring.last_blocks.dom() =~= m.last_blocks.dom());
}

/// A copy of a discovery watches as the discovery itself does, and what it has looked at is seen
/// by all: each step leads to the same, for the shared part too.
pub proof fn law_copy_watches_as_the_discovery(
    d: ShinobiDiscovery,
    copy: ShinobiDiscovery,
    m: MonitoringView,
    chain_id: u64,
    settler: Seq<u8>,
    phase: PhaseView,
    event: PollEvent,
    now: u64,
)
    requires
        call_ensures(<ShinobiDiscovery as Clone>::clone, (&d,), copy),
    ensures
        poll_step(copy@, m, chain_id, settler, phase, event, now) == poll_step(
            d@,
            m,
            chain_id,
            settler,
            phase,
            event,
            now,
        ),
{
}

/// A poll asks for the blocks right behind what has been looked at, up to the current one.
pub proof fn law_poll_asks_for_new_blocks(
    d: DiscoveryView,
    m: MonitoringView,
    chain_id: u64,
    settler: Seq<u8>,
    current: u64,
    now: u64,
)
    requires
        m.last_blocks.contains_key(chain_id),
        m.last_blocks[chain_id] < current,
    ensures
        ({
            let step = poll_step(
                d,
                m,
                chain_id,
                settler,
                PhaseView::AwaitBlock,
                PollEvent::Block(Some(current)),
                now,
            );
            &&& step.action == ActionView::GetLogs(
                open_filter(settler, Some((m.last_blocks[chain_id] + 1) as u64), Some(current)),
            )
            &&& step.phase == PhaseView::AwaitLogs { to_block: current }
        }),
{
}

/// Polls are adjacent: where a poll ends by counting its blocks as looked at, the next one asks
/// for the blocks from the very next one on. No block is asked for twice, and none is left out.
pub proof fn law_polls_are_adjacent(
    d: DiscoveryView,
    m: MonitoringView,
    chain_id: u64,
    settler: Seq<u8>,
    phase: PhaseView,
    event: PollEvent,
    now: u64,
    current: u64,
    later: u64,
)
    requires
        event_fits(phase, event),
        poll_in_order(m, chain_id, phase),
        block_under_way(phase) is Some,
        poll_step(d, m, chain_id, settler, phase, event, now).monitoring != m,
        block_under_way(phase)->0 < current,
    ensures
        ({
            let done = poll_step(d, m, chain_id, settler, phase, event, now);
            let next = poll_step(
                d,
                done.monitoring,
                chain_id,
                settler,
                PhaseView::AwaitBlock,
                PollEvent::Block(Some(current)),
                later,
            );
            &&& done.phase == PhaseView::Idle
            &&& done.monitoring.last_blocks[chain_id] == block_under_way(phase)->0
            &&& next.action == ActionView::GetLogs(
                open_filter(settler, Some((block_under_way(phase)->0 + 1) as u64), Some(current)),
            )
        }),
{
}

/// A poll that the chain did not answer, or whose intent the solver did not take, counts for
/// nothing: the blocks will be asked for again.
pub proof fn law_failed_poll_counts_for_nothing(
    d: DiscoveryView,
    m: MonitoringView,
    chain_id: u64,
    settler: Seq<u8>,
    phase: PhaseView,
    event: PollEvent,
    now: u64,
)
    requires
        event == PollEvent::Block(None) || event == PollEvent::Logs(None) || event
            == PollEvent::Sent(false),
    ensures
        poll_step(d, m, chain_id, settler, phase, event, now).monitoring == m,
{
}

/// Logs are taken one by one: each step sends the intent that the next log opens, or reports why
/// it opens none, and the blocks count as looked at only when no log is left.
pub proof fn law_logs_are_taken_one_by_one(
    d: DiscoveryView,
    m: MonitoringView,
    chain_id: u64,
    to_block: u64,
    logs: Seq<Log>,
    next: int,
    now: u64,
)
    requires
        0 <= next <= logs.len(),
        forall|i: int| next <= i < logs.len() ==> opened_origin_fits(#[trigger] logs[i]),
    ensures
        ({
            let step = deliver(d, m, chain_id, to_block, logs, next, now);
            if next == logs.len() {
                &&& step.phase == PhaseView::Idle
                &&& step.monitoring.last_blocks == m.last_blocks.insert(chain_id, to_block)
            } else {
                &&& step.phase == (PhaseView::Delivering { to_block, logs, next: next + 1 })
                &&& step.monitoring == m
                &&& log_outcome(logs[next]) is Ok <==> step.action is Send
                &&& log_outcome(logs[next]) is Err <==> step.action is Report
            }
        }),
{
}

/// The logs of a chain in the blocks from one to another, both counted in, one block after the
/// other.
pub open spec fn logs_between(chain: spec_fn(int) -> Seq<Log>, from: int, to: int) -> Seq<Log>
    decreases to - from + 1,
{
    if to < from {
        Seq::empty()
    } else {
        logs_between(chain, from, to - 1) + chain(to)
    }
}

/// The logs that open an intent, in their order.
pub open spec fn openings(logs: Seq<Log>) -> Seq<Log>
    decreases logs.len(),
{
    if logs.len() == 0 {
        Seq::empty()
    } else if log_outcome(logs.last()) is Ok {
        openings(logs.drop_last()).push(logs.last())
    } else {
        openings(logs.drop_last())
    }
}

/// What a log that opens an intent tells, whenever it was found.
pub open spec fn told(lock_type: Seq<char>, log: Log) -> FoundView {
    found_intent(lock_type, log.topics@[1]@, log_outcome(log)->Ok_0, 0)
}

/// What logs that open an intent tell, whenever they were found.
pub open spec fn all_told(lock_type: Seq<char>, logs: Seq<Log>) -> Seq<FoundView> {
    Seq::new(logs.len(), |i: int| told(lock_type, logs[i]))
}

/// What was sent, without the time at which it was found.
pub open spec fn untimed(sent: Seq<FoundView>) -> Seq<FoundView> {
    Seq::new(
        sent.len(),
        |i: int|
            FoundView {
                metadata: IntentMetadata { discovered_at: 0, ..sent[i].metadata },
                ..sent[i]
            },
    )
}

/// A run of a polling monitor: where it stands, what it has asked for last, and what it has sent.
pub struct Run {
    pub phase: PhaseView,
    pub monitoring: MonitoringView,
    pub asked: Option<FilterView>,
    pub sent: Seq<FoundView>,
}

/// A run after one more step.
pub open spec fn after_step(before: Run, step: PollStep) -> Run {
    Run {
        phase: step.phase,
        monitoring: step.monitoring,
        asked: match step.action {
            ActionView::GetLogs(filter) => Some(filter),
            _ => before.asked,
        },
        sent: match step.action {
            ActionView::Send(found) => before.sent.push(found),
            _ => before.sent,
        },
    }
}

/// The run through a sequence of events, each with its time, from between two polls on.
pub open spec fn run(
    d: DiscoveryView,
    start: MonitoringView,
    chain_id: u64,
    settler: Seq<u8>,
    events: Seq<(PollEvent, u64)>,
) -> Run
    decreases events.len(),
{
    if events.len() == 0 {
        Run { phase: PhaseView::Idle, monitoring: start, asked: None, sent: Seq::empty() }
    } else {
        let before = run(d, start, chain_id, settler, events.drop_last());
        let step = poll_step(
            d,
            before.monitoring,
            chain_id,
            settler,
            before.phase,
            events.last().0,
            events.last().1,
        );
        after_step(before, step)
    }
}

/// Whether logs are what a chain answers to a filter: those of the blocks from the first to the
/// last that it names, where it asks for the `Open` events of the settler. To any other filter,
/// any logs may be the answer.
pub open spec fn answers(
    asked: Option<FilterView>,
    settler: Seq<u8>,
    chain: spec_fn(int) -> Seq<Log>,
    logs: Seq<Log>,
) -> bool {
    asked matches Some(filter) ==> (filter.address == settler && filter.event_signature
        == keccak256_of(encode_utf8(OPEN_SIGNATURE@))@ ==> (filter.from_block matches Some(from)
        ==> (filter.to_block matches Some(to) ==> logs == logs_between(
        chain,
        from as int,
        to as int,
    ))))
}

/// Whether an event can come where a run stands, and is true of the chain: the logs are those that
/// were asked for, and the solver takes what it is sent. The chain may fail to answer at any time.
pub open spec fn event_is_true(
    before: Run,
    settler: Seq<u8>,
    chain: spec_fn(int) -> Seq<Log>,
    event: PollEvent,
) -> bool {
    &&& event_fits(before.phase, event)
    &&& event != PollEvent::Sent(false)
    &&& event matches PollEvent::Logs(Some(logs)) ==> answers(
        before.asked,
        settler,
        chain,
        logs@,
    )
}

/// Whether every event of a run is true of the chain.
pub open spec fn run_is_true(
    d: DiscoveryView,
    start: MonitoringView,
    chain_id: u64,
    settler: Seq<u8>,
    chain: spec_fn(int) -> Seq<Log>,
    events: Seq<(PollEvent, u64)>,
) -> bool
    decreases events.len(),
{
    events.len() == 0 || {
        &&& run_is_true(d, start, chain_id, settler, chain, events.drop_last())
        &&& event_is_true(
            run(d, start, chain_id, settler, events.drop_last()),
            settler,
            chain,
            events.last().0,
        )
    }
}

/// The logs of a poll under way that have been taken.
pub open spec fn taken_logs(phase: PhaseView) -> Seq<Log> {
    match phase {
        PhaseView::Delivering { logs, next, .. } => logs.take(next),
        _ => Seq::empty(),
    }
}

/// What holds of a run throughout: it has sent what the opening logs of the blocks that were
/// looked at tell, and of the logs taken since.
spec fn run_on_track(
    d: DiscoveryView,
    chain_id: u64,
    settler: Seq<u8>,
    chain: spec_fn(int) -> Seq<Log>,
    first: int,
    r: Run,
) -> bool {
    &&& poll_in_order(r.monitoring, chain_id, r.phase)
    &&& r.monitoring.last_blocks.contains_key(chain_id)
    &&& r.monitoring.last_blocks[chain_id] + 1 >= first
    &&& r.phase matches PhaseView::AwaitLogs { to_block } ==> r.asked == Some(
        FilterView {
            address: settler,
            event_signature: keccak256_of(encode_utf8(OPEN_SIGNATURE@))@,
            from_block: Some((r.monitoring.last_blocks[chain_id] + 1) as u64),
            to_block: Some(to_block),
        },
    )
    &&& r.phase matches PhaseView::Delivering { to_block, logs, next } ==> 0 <= next <= logs.len()
        && logs == logs_between(
        chain,
        r.monitoring.last_blocks[chain_id] + 1,
        to_block as int,
    )
    &&& untimed(r.sent) == all_told(
        d.lock_type,
        openings(
            logs_between(chain, first, r.monitoring.last_blocks[chain_id] as int) + taken_logs(
                r.phase,
            ),
        ),
    )
}

/// Ranges of blocks that touch make one range.
proof fn lemma_logs_between(chain: spec_fn(int) -> Seq<Log>, from: int, mid: int, to: int)
    requires
        from <= mid + 1,
        mid <= to,
    ensures
        logs_between(chain, from, mid) + logs_between(chain, mid + 1, to) == logs_between(
            chain,
            from,
            to,
        ),
    decreases to - mid,
{
    if mid < to {
        lemma_logs_between(chain, from, mid, to - 1);
        assert(logs_between(chain, from, mid) + (logs_between(chain, mid + 1, to - 1) + chain(to))
            =~= (logs_between(chain, from, mid) + logs_between(chain, mid + 1, to - 1)) + chain(
            to,
        ));
    } else {
        assert(logs_between(chain, mid + 1, to) =~= Seq::<Log>::empty());
        assert(logs_between(chain, from, mid) + Seq::<Log>::empty() =~= logs_between(
            chain,
            from,
            mid,
        ));
    }
}

/// Every log of a range is in one of its blocks.
proof fn lemma_logs_fit(chain: spec_fn(int) -> Seq<Log>, from: int, to: int)
    requires
        forall|block: int, i: int|
            0 <= i < chain(block).len() ==> opened_origin_fits(#[trigger] chain(block)[i]),
    ensures
        forall|i: int|
            0 <= i < logs_between(chain, from, to).len() ==> opened_origin_fits(
                #[trigger] logs_between(chain, from, to)[i],
            ),
    decreases to - from + 1,
{
    if from <= to {
        lemma_logs_fit(chain, from, to - 1);
        let front = logs_between(chain, from, to - 1);
        assert forall|i: int| 0 <= i < logs_between(chain, from, to).len() implies
            opened_origin_fits(#[trigger] logs_between(chain, from, to)[i]) by {
            if i < front.len() {
                assert(logs_between(chain, from, to)[i] == front[i]);
            } else {
                assert(logs_between(chain, from, to)[i] == chain(to)[i - front.len()]);
            }
        }
    }
}

/// One more step of delivery keeps a run on track.
proof fn lemma_delivery_on_track(
    d: DiscoveryView,
    chain_id: u64,
    settler: Seq<u8>,
    chain: spec_fn(int) -> Seq<Log>,
    first: int,
    r: Run,
    to_block: u64,
    logs: Seq<Log>,
    next: int,
    now: u64,
)
    requires
        r.monitoring.last_blocks.contains_key(chain_id),
        r.monitoring.last_blocks[chain_id] < to_block,
        r.monitoring.last_blocks[chain_id] + 1 >= first,
        0 <= next <= logs.len(),
        logs == logs_between(
            chain,
            r.monitoring.last_blocks[chain_id] + 1,
            to_block as int,
        ),
        forall|i: int| 0 <= i < logs.len() ==> opened_origin_fits(#[trigger] logs[i]),
        untimed(r.sent) == all_told(
            d.lock_type,
            openings(
                logs_between(chain, first, r.monitoring.last_blocks[chain_id] as int) + logs.take(
                    next,
                ),
            ),
        ),
    ensures
        ({
            let step = deliver(d, r.monitoring, chain_id, to_block, logs, next, now);
            run_on_track(d, chain_id, settler, chain, first, after_step(r, step))
        }),
{
    let last = r.monitoring.last_blocks[chain_id];
    let done = logs_between(chain, first, last as int);
    let step = deliver(d, r.monitoring, chain_id, to_block, logs, next, now);
    if next == logs.len() {
        lemma_logs_between(chain, first, last as int, to_block as int);
        assert(logs.take(next) =~= logs);
        let all = logs_between(chain, first, to_block as int);
        assert(all + Seq::<Log>::empty() =~= all);
    } else {
        let log = logs[next];
        let before = done + logs.take(next);
        let after = done + logs.take(next + 1);
        assert(opened_origin_fits(log));
        assert(after.drop_last() =~= before);
        assert(after.last() == log);
        if log_outcome(log) is Ok {
            let found = found_intent(
                d.lock_type,
                log.topics@[1]@,
                log_outcome(log)->Ok_0,
                found_at(log, now),
            );
            assert(step.action == ActionView::Send(found));
            assert(openings(after) == openings(before).push(log));
            assert(untimed(r.sent.push(found)) =~= untimed(r.sent).push(told(d.lock_type, log)));
            assert(all_told(d.lock_type, openings(before).push(log)) =~= all_told(
                d.lock_type,
                openings(before),
            ).push(told(d.lock_type, log)));
        } else {
            assert(openings(after) == openings(before));
        }
    }
}

/// Each event keeps a run on track.
proof fn lemma_run_on_track(
    d: DiscoveryView,
    start: MonitoringView,
    chain_id: u64,
    settler: Seq<u8>,
    chain: spec_fn(int) -> Seq<Log>,
    events: Seq<(PollEvent, u64)>,
)
    requires
        start.last_blocks.contains_key(chain_id),
        run_is_true(d, start, chain_id, settler, chain, events),
        forall|block: int, i: int|
            0 <= i < chain(block).len() ==> opened_origin_fits(#[trigger] chain(block)[i]),
    ensures
        run_on_track(
            d,
            chain_id,
            settler,
            chain,
            start.last_blocks[chain_id] + 1,
            run(d, start, chain_id, settler, events),
        ),
    decreases events.len(),
{
    let first = start.last_blocks[chain_id] + 1;
    if events.len() == 0 {
        assert(logs_between(chain, first, first - 1) + Seq::<Log>::empty() =~= Seq::<Log>::empty());
        assert(untimed(Seq::empty()) =~= all_told(d.lock_type, Seq::empty()));
    } else {
        let before = run(d, start, chain_id, settler, events.drop_last());
        let (event, now) = events.last();
        lemma_run_on_track(d, start, chain_id, settler, chain, events.drop_last());
        let last = before.monitoring.last_blocks[chain_id];
        match event {
            PollEvent::Logs(Some(logs)) => {
                let to_block = before.phase->AwaitLogs_to_block;
                lemma_logs_fit(chain, last + 1, to_block as int);
                assert(logs@.take(0) =~= Seq::<Log>::empty());
                lemma_delivery_on_track(
                    d,
                    chain_id,
                    settler,
                    chain,
                    first,
                    before,
                    to_block,
                    logs@,
                    0,
                    now,
                );
            },
            PollEvent::Sent(_) | PollEvent::Reported => {
                let to_block = before.phase->Delivering_to_block;
                lemma_logs_fit(chain, last + 1, to_block as int);
                lemma_delivery_on_track(
                    d,
                    chain_id,
                    settler,
                    chain,
                    first,
                    before,
                    to_block,
                    before.phase->Delivering_logs,
                    before.phase->Delivering_next,
                    now,
                );
            },
            _ => {},
        }
    }
}

/// Polling loses nothing and repeats nothing: whenever a monitor stands between two polls, after
/// any number of them and whatever the chain failed to answer in between, it has sent exactly what
/// the opening logs tell of the blocks from where it started up to the last one looked at, in
/// their order and each once. The chain only answers what the filters ask for, so that these cover
/// every block that counts as looked at.
pub proof fn law_polling_sends_every_opened_intent_once(
    d: DiscoveryView,
    start: MonitoringView,
    chain_id: u64,
    settler: Seq<u8>,
    chain: spec_fn(int) -> Seq<Log>,
    events: Seq<(PollEvent, u64)>,
)
    requires
        start.last_blocks.contains_key(chain_id),
        run_is_true(d, start, chain_id, settler, chain, events),
        forall|block: int, i: int|
            0 <= i < chain(block).len() ==> opened_origin_fits(#[trigger] chain(block)[i]),
    ensures
        ({
            let end = run(d, start, chain_id, settler, events);
            &&& end.monitoring.last_blocks.contains_key(chain_id)
            &&& end.monitoring.last_blocks[chain_id] >= start.last_blocks[chain_id]
            &&& !(end.phase is Delivering) ==> untimed(end.sent) == all_told(
                d.lock_type,
                openings(
                    logs_between(
                        chain,
                        start.last_blocks[chain_id] + 1,
                        end.monitoring.last_blocks[chain_id] as int,
                    ),
                ),
            )
        }),
{
    lemma_run_on_track(d, start, chain_id, settler, chain, events);
    let end = run(d, start, chain_id, settler, events);
    let all = logs_between(
        chain,
        start.last_blocks[chain_id] + 1,
        end.monitoring.last_blocks[chain_id] as int,
    );
    assert(all + Seq::<Log>::empty() =~= all);
}

} // verus!
