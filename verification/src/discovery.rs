//! Discovery of Shinobi intents on the chains where they are opened.

use std::collections::HashMap;
use vstd::prelude::*;
use crate::abi::{abi_encoded_intent, decoded_as};
use crate::intent::{IntentView, ShinobiIntent};
use crate::primitives::Address;
use crate::settler::{
    decode_outcome, IShinobiInputSettler, open_outcome, OpenEvent, ShinobiIntentSol,
};
use crate::settlers::{addresses_view, map_message, map_readable, map_settlers, parse_map};
use crate::text::{
    decimal, decimal_text, hex_0x, hex_0x_text, hex_bytes, law_hex_0x_round_trip, without_0x,
};
use crate::types::{
    chain_ids, FoundView, Intent, IntentMetadata, NetworkConfig, NetworksConfig, ValidationError,
};

verus! {

/// How often chains are polled, in seconds, where nothing else is configured.
pub const DEFAULT_POLLING_INTERVAL_SECS: u64 = 3;

/// What went wrong in discovery.
#[derive(Debug, Clone, PartialEq, Eq)]
pub enum DiscoveryError {
    /// The configuration does not hold up.
    ValidationError(String),
    /// A network cannot be reached.
    Connection(String),
    /// Something that was received cannot be read.
    ParseError(String),
    /// Monitoring is on already.
    AlreadyMonitoring,
}

/// An error as a mathematical value.
pub enum ErrorView {
    ValidationError(Seq<char>),
    Connection(Seq<char>),
    ParseError(Seq<char>),
    AlreadyMonitoring,
}

impl View for DiscoveryError {
    type V = ErrorView;

    open spec fn view(&self) -> ErrorView {
        match self {
            DiscoveryError::ValidationError(message) => ErrorView::ValidationError(message@),
            DiscoveryError::Connection(message) => ErrorView::Connection(message@),
            DiscoveryError::ParseError(message) => ErrorView::ParseError(message@),
            DiscoveryError::AlreadyMonitoring => ErrorView::AlreadyMonitoring,
        }
    }
}

/// How a chain is watched.
#[derive(Debug, Clone, Copy, PartialEq, Eq, Structural)]
pub enum ProviderKind {
    /// By polling over HTTP.
    Http,
    /// By a subscription over WebSocket.
    WebSocket,
}

/// Configuration of discovery.
#[derive(Debug, Clone)]
pub struct ShinobiDiscoveryConfig {
    /// Input settler addresses by chain.
    pub input_settlers: HashMap<u64, String>,
    /// Lock type of what is found, typically "native_escrow".
    pub lock_type: String,
    /// Polling interval in seconds; zero stands for WebSocket.
    pub polling_interval_secs: Option<u64>,
}

/// Finds Shinobi intents on a number of chains.
#[derive(Debug)]
pub struct ShinobiDiscovery {
    providers: HashMap<u64, ProviderKind>,
    network_ids: Vec<u64>,
    networks: NetworksConfig,
    input_settlers: HashMap<u64, Address>,
    polling_interval_secs: u64,
    lock_type: String,
}

/// What a discovery and all its copies share: whether monitoring is on, and how far each chain has
/// been looked at.
#[derive(Debug)]
pub struct Monitoring {
    last_blocks: HashMap<u64, u64>,
    is_monitoring: bool,
}

/// The shared part as a mathematical value.
#[verifier::ext_equal]
pub struct MonitoringView {
    /// The last block of each chain that has been looked at, when polling.
    pub last_blocks: Map<u64, u64>,
    /// Whether monitoring is on.
    pub is_monitoring: bool,
}

impl View for Monitoring {
    type V = MonitoringView;

    closed spec fn view(&self) -> MonitoringView {
        MonitoringView { last_blocks: self.last_blocks@, is_monitoring: self.is_monitoring }
    }
}

/// Discovery as a mathematical value.
#[verifier::ext_equal]
pub struct DiscoveryView {
    /// How each chain is watched.
    pub providers: Map<u64, ProviderKind>,
    /// The chains.
    pub network_ids: Seq<u64>,
    /// How each network is reached.
    pub networks: Map<u64, NetworkConfig>,
    /// The input settler on each chain.
    pub input_settlers: Map<u64, Seq<u8>>,
    /// Polling interval in seconds; zero stands for WebSocket.
    pub polling_interval_secs: u64,
    /// Lock type of what is found.
    pub lock_type: Seq<char>,
}

impl View for ShinobiDiscovery {
    type V = DiscoveryView;

    closed spec fn view(&self) -> DiscoveryView {
        DiscoveryView {
            providers: self.providers@,
            network_ids: self.network_ids@,
            networks: self.networks@,
            input_settlers: addresses_view(self.input_settlers@),
            polling_interval_secs: self.polling_interval_secs,
            lock_type: self.lock_type@,
        }
    }
}

/// How chains are watched at a polling interval.
pub open spec fn kind_for(polling_interval_secs: u64) -> ProviderKind {
    if polling_interval_secs == 0 {
        ProviderKind::WebSocket
    } else {
        ProviderKind::Http
    }
}

/// Whether the first `done` networks, and no others, are connected: each in the way that the
/// interval calls for, and with a block to start from when polling.
pub open spec fn connected_up_to(d: DiscoveryView, m: MonitoringView, done: nat) -> bool {
    let ready = d.network_ids.take(done as int).to_set();
    &&& done <= d.network_ids.len()
    &&& d.providers.dom() == ready
    &&& forall|id: u64| #[trigger]
        d.providers.contains_key(id) ==> d.providers[id] == kind_for(d.polling_interval_secs)
    &&& m.last_blocks.dom() == (if d.polling_interval_secs == 0 {
        Set::<u64>::empty()
    } else {
        ready
    })
}

/// Whether the networks are those with a settler, each once, and there is at least one.
pub open spec fn networks_chosen(d: DiscoveryView) -> bool {
    &&& d.network_ids.len() > 0
    &&& d.network_ids.no_duplicates()
    &&& d.network_ids.to_set() == d.input_settlers.dom()
}

/// Whether every network has a settler and is connected.
pub open spec fn ready(d: DiscoveryView, m: MonitoringView) -> bool {
    &&& networks_chosen(d)
    &&& connected_up_to(d, m, d.network_ids.len())
}

// ---------------------------------------------------------------------------
// Setting up
// ---------------------------------------------------------------------------
/// Discovery while its networks are being connected, one after another.
#[derive(Debug)]
pub struct DiscoverySetup {
    discovery: ShinobiDiscovery,
    monitoring: Monitoring,
    done: usize,
}

/// A network that is to be connected next.
#[derive(Debug, Clone, PartialEq, Eq)]
pub struct Connection {
    pub network_id: u64,
    pub kind: ProviderKind,
    pub url: String,
}

/// How connecting a network went.
#[derive(Debug, Clone, PartialEq, Eq)]
pub enum ConnectOutcome {
    /// The WebSocket is open.
    Connected,
    /// HTTP works, and the chain is at this block.
    ConnectedAt(u64),
    /// The WebSocket could not be opened.
    WebSocketFailed(String),
    /// The chain's block could not be had.
    BlockNumberFailed(String),
}

/// Whether an outcome can come of connecting in a certain way.
pub open spec fn outcome_fits(kind: ProviderKind, outcome: ConnectOutcome) -> bool {
    match outcome {
        ConnectOutcome::Connected | ConnectOutcome::WebSocketFailed(_) => kind
            == ProviderKind::WebSocket,
        _ => kind == ProviderKind::Http,
    }
}

/// The URL to connect a network at, or why there is none.
pub open spec fn url_for(d: DiscoveryView, id: u64) -> Result<Seq<char>, ErrorView> {
    if !d.networks.contains_key(id) {
        Err(
            ErrorView::ValidationError(
                "Network "@ + decimal(id as nat) + " not found in configuration"@,
            ),
        )
    } else {
        match kind_for(d.polling_interval_secs) {
            ProviderKind::WebSocket => match d.networks[id].ws_url {
                Some(url) => Ok(url@),
                None => Err(
                    ErrorView::Connection(
                        "No WebSocket RPC URL configured for network "@ + decimal(id as nat),
                    ),
                ),
            },
            ProviderKind::Http => match d.networks[id].http_url {
                Some(url) => match url_error_text(url@) {
                    None => Ok(url@),
                    Some(e) => Err(
                        ErrorView::Connection(
                            "Invalid RPC URL for network "@ + decimal(id as nat) + ": "@ + e,
                        ),
                    ),
                },
                None => Err(
                    ErrorView::Connection(
                        "No HTTP RPC URL configured for network "@ + decimal(id as nat),
                    ),
                ),
            },
        }
    }
}

/// The error that an outcome amounts to, if it does.
pub open spec fn outcome_error(id: u64, outcome: ConnectOutcome) -> Option<ErrorView> {
    match outcome {
        ConnectOutcome::Connected => None,
        ConnectOutcome::ConnectedAt(_) => None,
        ConnectOutcome::WebSocketFailed(e) => Some(
            ErrorView::Connection(
                "Failed to connect to WebSocket for network "@ + decimal(id as nat) + ": "@ + e@,
            ),
        ),
        ConnectOutcome::BlockNumberFailed(e) => Some(
            ErrorView::Connection(
                "Failed to get block number for network "@ + decimal(id as nat) + ": "@ + e@,
            ),
        ),
    }
}

/// Discovery with one more network connected.
pub open spec fn with_connected(d: DiscoveryView, id: u64) -> DiscoveryView {
    DiscoveryView {
        providers: d.providers.insert(id, kind_for(d.polling_interval_secs)),
        ..d
    }
}

/// The shared part with one more network connected: when polling, its block is where to start.
pub open spec fn with_start_block(
    m: MonitoringView,
    id: u64,
    outcome: ConnectOutcome,
) -> MonitoringView {
    match outcome {
        ConnectOutcome::ConnectedAt(block) => MonitoringView {
            last_blocks: m.last_blocks.insert(id, block),
            ..m
        },
        _ => m,
    }
}

/// What the URL parser says of a string that is not a URL; nothing of one that is.
pub uninterp spec fn url_error_text(text: Seq<char>) -> Option<Seq<char>>;

/// `reqwest::Url` read with `str::parse`: whether a string is a URL, and what is said of one that
/// is not, is a function of the string alone.
#[verifier::external_body]
fn check_url(text: &str) -> (checked: Result<(), String>)
    ensures
        match checked {
            Ok(_) => url_error_text(text@) is None,
            Err(e) => url_error_text(text@) == Some(e@),
        },
{
    text.parse::<reqwest::Url>().map(|_| ()).map_err(|e| e.to_string())
}

/// A message with a network in it.
fn network_message(before: &str, id: u64, after: &str) -> (message: String)
    ensures
        message@ == before@ + decimal(id as nat) + after@,
{
    let mut message = before.to_owned();
    message.append(decimal_text(id).as_str());
    message.append(after);
    message
}

/// A message with a network in it and a reason behind it.
fn network_failure(before: &str, id: u64, reason: &String) -> (message: String)
    ensures
        message@ == before@ + decimal(id as nat) + ": "@ + reason@,
{
    let mut message = network_message(before, id, ": ");
    message.append(reason.as_str());
    message
}

impl DiscoverySetup {
    /// Discovery as far as it has come.
    pub closed spec fn state(&self) -> DiscoveryView {
        self.discovery@
    }

    /// The shared part as far as it has come.
    pub closed spec fn monitoring(&self) -> MonitoringView {
        self.monitoring@
    }

    /// How many networks are connected.
    pub closed spec fn done(&self) -> nat {
        self.done as nat
    }

    /// The networks are chosen, and the first of them connected.
    pub open spec fn wf(&self) -> bool {
        &&& networks_chosen(self.state())
        &&& connected_up_to(self.state(), self.monitoring(), self.done())
        &&& !self.monitoring().is_monitoring
    }

    /// The network to connect next: which, how and where. Nothing where all are connected.
    pub fn next_connection(&self) -> (next: Result<Option<Connection>, DiscoveryError>)
        requires
            self.wf(),
        ensures
            match next {
                Ok(None) => self.done() == self.state().network_ids.len(),
                Ok(Some(connection)) => {
                    &&& self.done() < self.state().network_ids.len()
                    &&& connection.network_id == self.state().network_ids[self.done() as int]
                    &&& connection.kind == kind_for(self.state().polling_interval_secs)
                    &&& url_for(self.state(), connection.network_id) == Ok::<Seq<char>, ErrorView>(
                        connection.url@,
                    )
                },
                Err(e) => {
                    &&& self.done() < self.state().network_ids.len()
                    &&& url_for(self.state(), self.state().network_ids[self.done() as int])
                        == Err::<Seq<char>, ErrorView>(e@)
                },
            },
    {
        if self.done >= self.discovery.network_ids.len() {
            return Ok(None);
        }
        let id: u64 = self.discovery.network_ids[self.done];
        let network = match self.discovery.networks.get(&id) {
            Some(network) => network,
            None => {
                return Err(
                    DiscoveryError::ValidationError(
                        network_message("Network ", id, " not found in configuration"),
                    ),
                );
            },
        };
        if self.discovery.polling_interval_secs == 0 {
            match &network.ws_url {
                Some(url) => Ok(
                    Some(
                        Connection {
                            network_id: id,
                            kind: ProviderKind::WebSocket,
                            url: url.clone(),
                        },
                    ),
                ),
                None => {
                    let message = "No WebSocket RPC URL configured for network ".to_owned().concat(
                        decimal_text(id).as_str(),
                    );
                    Err(DiscoveryError::Connection(message))
                },
            }
        } else {
            match &network.http_url {
                Some(url) => match check_url(url.as_str()) {
                    Ok(_) => Ok(
                        Some(
                            Connection {
                                network_id: id,
                                kind: ProviderKind::Http,
                                url: url.clone(),
                            },
                        ),
                    ),
                    Err(e) => Err(
                        DiscoveryError::Connection(
                            network_failure("Invalid RPC URL for network ", id, &e),
                        ),
                    ),
                },
                None => {
                    let message = "No HTTP RPC URL configured for network ".to_owned().concat(
                        decimal_text(id).as_str(),
                    );
                    Err(DiscoveryError::Connection(message))
                },
            }
        }
    }

    /// Takes note of how connecting the next network went.
    pub fn record_connection(&mut self, outcome: ConnectOutcome) -> (recorded: Result<
        (),
        DiscoveryError,
    >)
        requires
            old(self).wf(),
            old(self).done() < old(self).state().network_ids.len(),
            outcome_fits(kind_for(old(self).state().polling_interval_secs), outcome),
        ensures
            final(self).wf(),
            ({
                let id = old(self).state().network_ids[old(self).done() as int];
                match recorded {
                    Ok(_) => {
                        &&& outcome_error(id, outcome) is None
                        &&& final(self).state() == with_connected(old(self).state(), id)
                        &&& final(self).monitoring() == with_start_block(
                            old(self).monitoring(),
                            id,
                            outcome,
                        )
                        &&& final(self).done() == old(self).done() + 1
                    },
                    Err(e) => {
                        &&& outcome_error(id, outcome) == Some(e@)
                        &&& final(self).state() == old(self).state()
                        &&& final(self).monitoring() == old(self).monitoring()
                        &&& final(self).done() == old(self).done()
                    },
                }
            }),
    {
        let id: u64 = self.discovery.network_ids[self.done];
        let ghost before = self.state();
        let ghost shared = self.monitoring();
        let ghost n = self.done();
        match outcome {
            ConnectOutcome::Connected => {
                self.discovery.providers.insert(id, ProviderKind::WebSocket);
            },
            ConnectOutcome::ConnectedAt(block) => {
                self.discovery.providers.insert(id, ProviderKind::Http);
                self.monitoring.last_blocks.insert(id, block);
            },
            ConnectOutcome::WebSocketFailed(e) => {
                return Err(
                    DiscoveryError::Connection(
                        network_failure("Failed to connect to WebSocket for network ", id, &e),
                    ),
                );
            },
            ConnectOutcome::BlockNumberFailed(e) => {
                return Err(
                    DiscoveryError::Connection(
                        network_failure("Failed to get block number for network ", id, &e),
                    ),
                );
            },
        }
        assert(n < self.discovery.network_ids.len());
        self.done = self.done + 1;
        proof {
            lemma_take_more(before.network_ids, n);
            assert(self.state() =~= with_connected(before, id));
            assert(self.monitoring() =~= with_start_block(shared, id, outcome));
            assert(self.state().providers.dom() =~= before.providers.dom().insert(id));
            if outcome is ConnectedAt {
                assert(self.monitoring().last_blocks.dom() =~= shared.last_blocks.dom().insert(
                    id,
                ));
            }
        }
        Ok(())
    }

    /// The discovery and what it shares with its copies, once all networks are connected.
    pub fn finish(self) -> (made: (ShinobiDiscovery, Monitoring))
        requires
            self.wf(),
            self.done() == self.state().network_ids.len(),
        ensures
            ready(made.0@, made.1@),
            made.0@ == self.state(),
            made.1@ == self.monitoring(),
            !made.1@.is_monitoring,
    {
        (self.discovery, self.monitoring)
    }
}

/// One more element adds itself to the set of those before it.
proof fn lemma_take_more(ids: Seq<u64>, n: nat)
    requires
        n < ids.len(),
    ensures
        ids.take((n + 1) as int).to_set() == ids.take(n as int).to_set().insert(ids[n as int]),
{
    let more = ids.take((n + 1) as int);
    let less = ids.take(n as int);
    assert(more =~= less.push(ids[n as int]));
    assert forall|x: u64| more.to_set().contains(x) <==> less.to_set().insert(
        ids[n as int],
    ).contains(x) by {
        if less.contains(x) {
            let i = choose|i: int| 0 <= i < less.len() && less[i] == x;
            assert(more[i] == x);
        }
        assert(more[n as int] == ids[n as int]);
        if more.contains(x) {
            let i = choose|i: int| 0 <= i < more.len() && more[i] == x;
            assert(i < n ==> less[i] == x);
        }
    }
    assert(more.to_set() =~= less.to_set().insert(ids[n as int]));
}

impl ShinobiDiscovery {
    /// Starts to set up discovery on the chains that have a settler, at a polling interval in
    /// seconds of which zero stands for WebSocket. What is left is to connect the networks.
    pub fn new(
        input_settlers: HashMap<u64, Address>,
        networks: NetworksConfig,
        polling_interval_secs: Option<u64>,
        lock_type: String,
    ) -> (setup: Result<DiscoverySetup, DiscoveryError>)
        ensures
            match setup {
                Ok(s) => {
                    &&& input_settlers@.dom() != Set::<u64>::empty()
                    &&& s.wf()
                    &&& s.done() == 0
                    &&& s.state().input_settlers == addresses_view(input_settlers@)
                    &&& s.state().networks == networks@
                    &&& s.state().polling_interval_secs == (match polling_interval_secs {
                        Some(interval) => interval,
                        None => DEFAULT_POLLING_INTERVAL_SECS,
                    })
                    &&& s.state().lock_type == lock_type@
                },
                Err(e) => {
                    &&& input_settlers@.dom() == Set::<u64>::empty()
                    &&& e@ == ErrorView::ValidationError(
                        "At least one input settler must be configured"@,
                    )
                },
            },
    {
        if input_settlers.is_empty() {
            return Err(
                DiscoveryError::ValidationError(
                    "At least one input settler must be configured".to_owned(),
                ),
            );
        }
        let network_ids = chain_ids(&input_settlers);
        let interval: u64 = match polling_interval_secs {
            Some(interval) => interval,
            None => DEFAULT_POLLING_INTERVAL_SECS,
        };
        let discovery = ShinobiDiscovery {
            providers: HashMap::new(),
            network_ids,
            networks,
            input_settlers,
            polling_interval_secs: interval,
            lock_type,
        };
        let monitoring = Monitoring { last_blocks: HashMap::new(), is_monitoring: false };
        let setup = DiscoverySetup { discovery, monitoring, done: 0 };
        proof {
            let d = setup.state();
            assert(d.input_settlers.dom() =~= input_settlers@.dom());
            assert(d.network_ids.take(0) =~= Seq::<u64>::empty());
            assert(d.network_ids.take(0).to_set() =~= Set::<u64>::empty());
            assert(d.providers.dom() =~= Set::<u64>::empty());
            assert(setup.monitoring().last_blocks.dom() =~= Set::<u64>::empty());
            if d.network_ids.len() == 0 {
                assert(d.network_ids.to_set() =~= Set::<u64>::empty());
            }
        }
        Ok(setup)
    }
}

// ---------------------------------------------------------------------------
// From event to intent
// ---------------------------------------------------------------------------
/// A log entry of a chain.
#[derive(Debug, Clone, PartialEq, Eq)]
pub struct Log {
    pub topics: Vec<[u8; 32]>,
    pub data: Vec<u8>,
    /// When the block was made, where the chain said so.
    pub block_timestamp: Option<u64>,
}

/// The intent that was found under an order identifier at a time.
pub open spec fn found_intent(
    lock_type: Seq<char>,
    order_id: Seq<u8>,
    intent: IntentView,
    discovered_at: u64,
) -> FoundView {
    FoundView {
        id: hex_0x(order_id),
        source: "on-chain"@,
        standard: "shinobi"@,
        metadata: IntentMetadata { requires_auction: false, exclusive_until: None, discovered_at },
        data: intent,
        order_bytes: abi_encoded_intent(intent),
        quote_id: None,
        lock_type,
    }
}

/// When what a log tells was found: at the time of its block, or now.
pub open spec fn found_at(log: Log, now: u64) -> u64 {
    match log.block_timestamp {
        Some(timestamp) => timestamp,
        None => now,
    }
}

/// The intent that a log opens, or what is wrong with a log that opens none.
pub open spec fn log_outcome(log: Log) -> Result<IntentView, Seq<char>> {
    open_outcome(log.topics@, log.data@)
}

/// Whether the origin chain of what a log opens, if it opens something, fits in 64 bits.
pub open spec fn opened_origin_fits(log: Log) -> bool {
    log_outcome(log) matches Ok(intent) ==> intent.origin_chain_id <= u64::MAX
}

/// What processing a log comes to: an intent for the solver, or an error about the log.
pub open spec fn process_outcome(lock_type: Seq<char>, log: Log, now: u64) -> Result<
    FoundView,
    ErrorView,
> {
    match log_outcome(log) {
        Ok(intent) => Ok(
            found_intent(lock_type, log.topics@[1]@, intent, found_at(log, now)),
        ),
        Err(e) => Err(ErrorView::ParseError("Failed to decode Open event: "@ + e)),
    }
}

/// A processed log as a mathematical value.
pub open spec fn processed_view(processed: Result<Intent, DiscoveryError>) -> Result<
    FoundView,
    ErrorView,
> {
    match processed {
        Ok(intent) => Ok(intent@),
        Err(e) => Err(e@),
    }
}

impl ShinobiDiscovery {
    /// Makes an intent for the solver out of what an `Open` event told.
    pub fn convert_to_intent(
        &self,
        order_id: [u8; 32],
        sol_intent: ShinobiIntentSol,
        block_timestamp: u64,
    ) -> (converted: Result<Intent, DiscoveryError>)
        requires
            sol_intent@.origin_chain_id <= u64::MAX,
        ensures
            converted matches Ok(intent) && intent@ == found_intent(
                self@.lock_type,
                order_id@,
                sol_intent@,
                block_timestamp,
            ) && decode_outcome(intent@.order_bytes) == decoded_as(sol_intent@),
    {
        let order_bytes = sol_intent.abi_encode();
        let shinobi_intent = ShinobiIntent::from_sol(sol_intent);
        Ok(
            Intent {
                id: hex_0x_text(&order_id),
                source: "on-chain".to_owned(),
                standard: "shinobi".to_owned(),
                metadata: IntentMetadata {
                    requires_auction: false,
                    exclusive_until: None,
                    discovered_at: block_timestamp,
                },
                data: shinobi_intent,
                order_bytes,
                quote_id: None,
                lock_type: self.lock_type.clone(),
            },
        )
    }

    /// Makes an intent for the solver out of the outcome of decoding a log.
    pub fn convert_decoded(
        &self,
        decoded: Result<OpenEvent, String>,
        block_timestamp: u64,
    ) -> (converted: Result<Intent, DiscoveryError>)
        requires
            decoded matches Ok(open) ==> open.intent@.origin_chain_id <= u64::MAX,
        ensures
            match decoded {
                Ok(open) => converted matches Ok(intent) && intent@ == found_intent(
                    self@.lock_type,
                    open.order_id@,
                    open.intent@,
                    block_timestamp,
                ) && decode_outcome(intent@.order_bytes) == decoded_as(open.intent@),
                Err(e) => converted matches Err(r) && r@ == ErrorView::ParseError(
                    "Failed to decode Open event: "@ + e@,
                ),
            },
    {
        match decoded {
            Ok(open) => self.convert_to_intent(open.order_id, open.intent, block_timestamp),
            Err(e) => Err(
                DiscoveryError::ParseError(
                    "Failed to decode Open event: ".to_owned().concat(e.as_str()),
                ),
            ),
        }
    }

    /// Reads a log as an `Open` event and makes an intent for the solver out of it.
    pub fn process_open_event(&self, log: &Log, _chain_id: u64, now: u64) -> (processed: Result<
        Intent,
        DiscoveryError,
    >)
        requires
            opened_origin_fits(*log),
        ensures
            processed_view(processed) == process_outcome(self@.lock_type, *log, now),
            processed matches Ok(intent) ==> decode_outcome(intent@.order_bytes) == log_outcome(
                *log,
            ),
    {
        let decoded = IShinobiInputSettler::decode_open(&log.topics, log.data.as_slice());
        let block_timestamp: u64 = match log.block_timestamp {
            Some(timestamp) => timestamp,
            None => now,
        };
        self.convert_decoded(decoded, block_timestamp)
    }

    /// Reads a log as an `Open` event, or gives nothing where the origin chain does not fit in 64
    /// bits.
    pub fn try_process_open_event(&self, log: &Log, chain_id: u64, now: u64) -> (processed: Option<
        Result<Intent, DiscoveryError>,
    >)
        ensures
            processed is Some <==> opened_origin_fits(*log),
            processed matches Some(result) ==> processed_view(result) == process_outcome(
                self@.lock_type,
                *log,
                now,
            ),
            processed matches Some(Ok(intent)) ==> decode_outcome(intent@.order_bytes)
                == log_outcome(*log),
    {
        match IShinobiInputSettler::decode_open(&log.topics, log.data.as_slice()) {
            Ok(open) => if open.intent.originChainId.try_to_u64().is_some() {
                Some(self.process_open_event(log, chain_id, now))
            } else {
                None
            },
            Err(_) => Some(self.process_open_event(log, chain_id, now)),
        }
    }
}

// ---------------------------------------------------------------------------
// Starting and stopping
// ---------------------------------------------------------------------------
/// A chain that is to be watched, and how.
#[derive(Debug, Clone, Copy, PartialEq, Eq)]
pub struct MonitorTask {
    pub chain_id: u64,
    pub settler_address: Address,
    pub kind: ProviderKind,
}

/// A chain that is to be watched, as a mathematical value.
#[verifier::ext_equal]
pub struct TaskView {
    pub chain_id: u64,
    pub settler_address: Seq<u8>,
    pub kind: ProviderKind,
}

impl View for MonitorTask {
    type V = TaskView;

    open spec fn view(&self) -> TaskView {
        TaskView {
            chain_id: self.chain_id,
            settler_address: self.settler_address@,
            kind: self.kind,
        }
    }
}

/// A list of tasks as mathematical values.
pub open spec fn tasks_view(tasks: Seq<MonitorTask>) -> Seq<TaskView> {
    Seq::new(tasks.len(), |i: int| tasks[i]@)
}

/// The task for a network, or why there can be none.
pub open spec fn task_for(d: DiscoveryView, id: u64) -> Result<TaskView, ErrorView> {
    if !d.input_settlers.contains_key(id) {
        Err(ErrorView::ValidationError("No settler address for network "@ + decimal(id as nat)))
    } else if !d.providers.contains_key(id) {
        Err(ErrorView::Connection("No provider for network "@ + decimal(id as nat)))
    } else {
        Ok(
            TaskView {
                chain_id: id,
                settler_address: d.input_settlers[id],
                kind: d.providers[id],
            },
        )
    }
}

/// The tasks for the networks in their order, up to the first that can have none, and why that
/// one cannot.
pub open spec fn tasks_for(d: DiscoveryView, ids: Seq<u64>) -> (Seq<TaskView>, Option<ErrorView>)
    decreases ids.len(),
{
    if ids.len() == 0 {
        (Seq::empty(), None)
    } else {
        let (tasks, error) = tasks_for(d, ids.drop_last());
        if error is Some {
            (tasks, error)
        } else {
            match task_for(d, ids.last()) {
                Ok(task) => (tasks.push(task), None),
                Err(e) => (tasks, Some(e)),
            }
        }
    }
}

/// The first network that can have no task decides.
proof fn lemma_tasks_stop(d: DiscoveryView, ids: Seq<u64>, n: int)
    requires
        0 <= n <= ids.len(),
        tasks_for(d, ids.take(n)).1 is Some,
    ensures
        tasks_for(d, ids) == tasks_for(d, ids.take(n)),
    decreases ids.len(),
{
    if n < ids.len() {
        assert(ids.drop_last().take(n) =~= ids.take(n));
        lemma_tasks_stop(d, ids.drop_last(), n);
    } else {
        assert(ids.take(n) =~= ids);
    }
}

/// What starting comes to: the shared part, the tasks, and the error, if there is one. Where
/// monitoring is on already, that is an error, whoever turned it on.
pub open spec fn start_outcome(d: DiscoveryView, m: MonitoringView) -> (
    MonitoringView,
    Seq<TaskView>,
    Option<ErrorView>,
) {
    let on = MonitoringView { is_monitoring: true, ..m };
    if m.is_monitoring {
        (on, Seq::empty(), Some(ErrorView::AlreadyMonitoring))
    } else {
        let (tasks, error) = tasks_for(d, d.network_ids);
        (on, tasks, error)
    }
}

/// What stopping comes to: the shared part, and whether there is anything to stop.
pub open spec fn stop_outcome(m: MonitoringView) -> (MonitoringView, bool) {
    (MonitoringView { is_monitoring: false, ..m }, m.is_monitoring)
}

impl ShinobiDiscovery {
    /// Turns monitoring on and gives the chains to watch, in order. Where it is on already, that
    /// is an error. Where a network turns out to have no settler or no provider, the tasks before
    /// it are given beside the error, and monitoring counts as on.
    pub fn start_monitoring(&self, shared: &mut Monitoring) -> (started: (
        Vec<MonitorTask>,
        Result<(), DiscoveryError>,
    ))
        ensures
            start_outcome(self@, old(shared)@) == (
                final(shared)@,
                tasks_view(started.0@),
                match started.1 {
                    Ok(_) => None::<ErrorView>,
                    Err(e) => Some(e@),
                },
            ),
    {
        let mut tasks: Vec<MonitorTask> = Vec::new();
        if shared.is_monitoring {
            assert(tasks_view(tasks@) =~= Seq::<TaskView>::empty());
            return (tasks, Err(DiscoveryError::AlreadyMonitoring));
        }
        shared.is_monitoring = true;
        let ghost d = self@;
        assert(tasks_view(tasks@) =~= tasks_for(d, d.network_ids.take(0)).0);
        for i in 0..self.network_ids.len()
            invariant
                d == self@,
                !old(shared)@.is_monitoring,
                shared@ == (MonitoringView { is_monitoring: true, ..old(shared)@ }),
                self.network_ids@ == d.network_ids,
                addresses_view(self.input_settlers@) == d.input_settlers,
                self.providers@ == d.providers,
                tasks_for(d, d.network_ids.take(i as int)) == (
                    tasks_view(tasks@),
                    None::<ErrorView>,
                ),
        {
            let id: u64 = self.network_ids[i];
            assert(d.network_ids.take(i + 1).drop_last() =~= d.network_ids.take(i as int));
            assert(d.network_ids.take(i + 1).last() == id);
            let settler_address = match self.input_settlers.get(&id) {
                Some(settler_address) => *settler_address,
                None => {
                    let message = "No settler address for network ".to_owned().concat(
                        decimal_text(id).as_str(),
                    );
                    proof {
                        lemma_tasks_stop(d, d.network_ids, i + 1);
                    }
                    return (tasks, Err(DiscoveryError::ValidationError(message)));
                },
            };
            let kind = match self.providers.get(&id) {
                Some(kind) => *kind,
                None => {
                    let message = "No provider for network ".to_owned().concat(
                        decimal_text(id).as_str(),
                    );
                    proof {
                        lemma_tasks_stop(d, d.network_ids, i + 1);
                    }
                    return (tasks, Err(DiscoveryError::Connection(message)));
                },
            };
            let ghost before = tasks_view(tasks@);
            let task = MonitorTask { chain_id: id, settler_address, kind };
            tasks.push(task);
            assert(tasks_view(tasks@) =~= before.push(task@));
        }
        assert(d.network_ids.take(d.network_ids.len() as int) =~= d.network_ids);
        (tasks, Ok(()))
    }

    /// Turns monitoring off, and says whether it was on: then its tasks are to be told to stop,
    /// and waited for.
    pub fn stop_monitoring(&self, shared: &mut Monitoring) -> (was_on: bool)
        ensures
            stop_outcome(old(shared)@) == (final(shared)@, was_on),
    {
        let was_on = shared.is_monitoring;
        shared.is_monitoring = false;
        was_on
    }

    /// How often to poll, in seconds; zero stands for WebSocket.
    pub fn polling_interval(&self) -> (interval: u64)
        ensures
            interval == self@.polling_interval_secs,
    {
        self.polling_interval_secs
    }

    /// The schema of the configuration.
    pub fn config_schema(&self) -> (schema: ShinobiDiscoveryConfigSchema)
        ensures
            schema == ShinobiDiscoveryConfigSchema,
    {
        ShinobiDiscoveryConfigSchema
    }
}

impl Monitoring {
    /// The last block of a chain that has been looked at.
    pub fn last_block(&self, chain_id: u64) -> (block: Option<u64>)
        ensures
            block == (if self@.last_blocks.contains_key(chain_id) {
                Some(self@.last_blocks[chain_id])
            } else {
                None
            }),
    {
        match self.last_blocks.get(&chain_id) {
            Some(block) => Some(*block),
            None => None,
        }
    }

    /// Takes note that a chain has been looked at up to a block.
    pub(crate) fn set_last_block(&mut self, chain_id: u64, block: u64)
        ensures
            final(self)@ == (MonitoringView {
                last_blocks: old(self)@.last_blocks.insert(chain_id, block),
                ..old(self)@
            }),
    {
        self.last_blocks.insert(chain_id, block);
    }
}

impl Clone for ShinobiDiscovery {
    /// A copy for a task to work with: it has no providers of its own. What the discovery shares
    /// with its copies is kept apart from it, so that it is not copied.
    fn clone(&self) -> (copy: Self)
        ensures
            copy@ == (DiscoveryView { providers: Map::empty(), ..self@ }),
    {
        let mut network_ids: Vec<u64> = Vec::new();
        for i in 0..self.network_ids.len()
            invariant
                network_ids@ == self.network_ids@.take(i as int),
        {
            network_ids.push(self.network_ids[i]);
            assert(self.network_ids@.take(i + 1) =~= self.network_ids@.take(i as int).push(
                self.network_ids@[i as int],
            ));
        }
        assert(self.network_ids@.take(self.network_ids@.len() as int) =~= self.network_ids@);
        ShinobiDiscovery {
            providers: HashMap::new(),
            network_ids,
            networks: self.networks.clone(),
            input_settlers: self.input_settlers.clone(),
            polling_interval_secs: self.polling_interval_secs,
            lock_type: self.lock_type.clone(),
        }
    }
}

// ---------------------------------------------------------------------------
// Configuration
// ---------------------------------------------------------------------------
/// The schema of a discovery configuration. What there is to check is checked when discovery is
/// made.
#[derive(Debug, Clone, Copy)]
pub struct ShinobiDiscoveryConfigSchema;

impl ShinobiDiscoveryConfigSchema {
    /// Accepts every configuration.
    pub fn validate(&self, _config: &toml::Value) -> (checked: Result<(), ValidationError>)
        ensures
            checked is Ok,
    {
        Ok(())
    }
}

/// The name under which discovery is registered, and how one is made.
pub struct Registry;

impl Registry {
    /// The name of the implementation.
    pub fn name() -> (name: &'static str)
        ensures
            name@ == "shinobi"@,
    {
        "shinobi"
    }

    /// Starts to set up discovery from a configuration.
    pub fn factory(config: &ShinobiDiscoveryConfig, networks: NetworksConfig) -> (setup: Result<
        DiscoverySetup,
        DiscoveryError,
    >)
        ensures
            match setup {
                Ok(s) => {
                    &&& map_readable(config.input_settlers@)
                    &&& config.input_settlers@.dom() != Set::<u64>::empty()
                    &&& s.wf()
                    &&& s.done() == 0
                    &&& s.state().input_settlers == map_settlers(config.input_settlers@)
                    &&& s.state().networks == networks@
                    &&& s.state().polling_interval_secs == (match config.polling_interval_secs {
                        Some(interval) => interval,
                        None => DEFAULT_POLLING_INTERVAL_SECS,
                    })
                    &&& s.state().lock_type == config.lock_type@
                },
                Err(e) => if !map_readable(config.input_settlers@) {
                    e@ matches ErrorView::ValidationError(message) && map_message(
                        "Invalid settler address for chain "@,
                        config.input_settlers@,
                        message,
                    )
                } else {
                    &&& config.input_settlers@.dom() == Set::<u64>::empty()
                    &&& e@ == ErrorView::ValidationError(
                        "At least one input settler must be configured"@,
                    )
                },
            },
    {
        match parse_map("Invalid settler address for chain ", &config.input_settlers) {
            Ok(input_settlers) => {
                proof {
                    assert(addresses_view(input_settlers@).dom() =~= input_settlers@.dom());
                    assert(map_settlers(config.input_settlers@).dom()
                        =~= config.input_settlers@.dom());
                }
                ShinobiDiscovery::new(
                    input_settlers,
                    networks,
                    config.polling_interval_secs,
                    config.lock_type.clone(),
                )
            },
            Err(e) => Err(DiscoveryError::ValidationError(e)),
        }
    }
}

// ---------------------------------------------------------------------------
// Laws
// ---------------------------------------------------------------------------
/// Once every network is connected, starting gives a task for each of them, with its settler and
/// in the way that the polling interval calls for.
pub proof fn law_ready_discovery_watches_every_network(d: DiscoveryView, m: MonitoringView)
    requires
        ready(d, m),
    ensures
        tasks_for(d, d.network_ids) == (
            Seq::new(
                d.network_ids.len(),
                |i: int|
                    TaskView {
                        chain_id: d.network_ids[i],
                        settler_address: d.input_settlers[d.network_ids[i]],
                        kind: kind_for(d.polling_interval_secs),
                    },
            ),
            None::<ErrorView>,
        ),
{
    let ids = d.network_ids;
    assert(ids.take(ids.len() as int) =~= ids);
    assert forall|i: int| 0 <= i < ids.len() implies d.providers.contains_key(#[trigger] ids[i])
        && d.input_settlers.contains_key(ids[i]) by {
        assert(ids.contains(ids[i]));
        assert(ids.to_set().contains(ids[i]));
    }
    lemma_all_tasks(d, ids);
}

/// Networks with a settler and a provider all get their task.
proof fn lemma_all_tasks(d: DiscoveryView, ids: Seq<u64>)
    requires
        forall|i: int|
            0 <= i < ids.len() ==> d.providers.contains_key(#[trigger] ids[i])
                && d.input_settlers.contains_key(ids[i]) && d.providers[ids[i]] == kind_for(
                d.polling_interval_secs,
            ),
    ensures
        tasks_for(d, ids) == (
            Seq::new(
                ids.len(),
                |i: int|
                    TaskView {
                        chain_id: ids[i],
                        settler_address: d.input_settlers[ids[i]],
                        kind: kind_for(d.polling_interval_secs),
                    },
            ),
            None::<ErrorView>,
        ),
    decreases ids.len(),
{
    let all = Seq::new(
        ids.len(),
        |i: int|
            TaskView {
                chain_id: ids[i],
                settler_address: d.input_settlers[ids[i]],
                kind: kind_for(d.polling_interval_secs),
            },
    );
    if ids.len() > 0 {
        lemma_all_tasks(d, ids.drop_last());
        assert(ids[ids.len() - 1] == ids.last());
        assert(tasks_for(d, ids.drop_last()).0.push(task_for(d, ids.last())->Ok_0) =~= all);
    } else {
        assert(all =~= Seq::<TaskView>::empty());
    }
}

/// Once every network is connected, each chain that is polled has a block to start from.
pub proof fn law_ready_discovery_has_start_blocks(d: DiscoveryView, m: MonitoringView, i: int)
    requires
        ready(d, m),
        d.polling_interval_secs != 0,
        0 <= i < d.network_ids.len(),
    ensures
        m.last_blocks.contains_key(d.network_ids[i]),
{
    let ids = d.network_ids;
    assert(ids.take(ids.len() as int) =~= ids);
    assert(ids.contains(ids[i]));
    assert(ids.to_set().contains(ids[i]));
}

/// A discovery and its copies share the monitoring: once one of them has started it, starting it
/// through any of them is an error, and stopping it through any of them ends it for all.
pub proof fn law_copies_share_monitoring(
    d: ShinobiDiscovery,
    copy: ShinobiDiscovery,
    m: MonitoringView,
)
    requires
        call_ensures(<ShinobiDiscovery as Clone>::clone, (&d,), copy),
    ensures
        ({
            let started = start_outcome(d@, m).0;
            &&& start_outcome(copy@, started) == (
                started,
                Seq::<TaskView>::empty(),
                Some(ErrorView::AlreadyMonitoring),
            )
            &&& stop_outcome(started) == (MonitoringView { is_monitoring: false, ..m }, true)
            &&& started.last_blocks == m.last_blocks
        }),
        copy@ == (DiscoveryView { providers: Map::empty(), ..d@ }),
{
}

/// Stopping a second time finds nothing to stop, and starting after a stop gives the same tasks
/// and keeps what has been looked at.
pub proof fn law_stop_and_start_again(d: DiscoveryView, m: MonitoringView)
    ensures
        stop_outcome(stop_outcome(m).0) == (stop_outcome(m).0, false),
        !m.is_monitoring ==> start_outcome(d, stop_outcome(start_outcome(d, m).0).0)
            == start_outcome(d, m),
        stop_outcome(start_outcome(d, m).0).0.last_blocks == m.last_blocks,
{
    if !m.is_monitoring {
        assert(stop_outcome(start_outcome(d, m).0).0 =~= m);
    }
}

/// A copy of a discovery can start nothing: it has no providers of its own.
pub proof fn law_copy_watches_nothing(d: DiscoveryView)
    requires
        networks_chosen(d),
        d.providers == Map::<u64, ProviderKind>::empty(),
    ensures
        tasks_for(d, d.network_ids) == (
            Seq::<TaskView>::empty(),
            Some(
                ErrorView::Connection(
                    "No provider for network "@ + decimal(d.network_ids[0] as nat),
                ),
            ),
        ),
{
    let ids = d.network_ids;
    let first = ids.take(1);
    assert(ids.contains(ids[0]));
    assert(ids.to_set().contains(ids[0]));
    assert(first.drop_last() =~= Seq::<u64>::empty());
    assert(first.last() == ids[0]);
    assert(tasks_for(d, first.drop_last()) == (Seq::<TaskView>::empty(), None::<ErrorView>));
    lemma_tasks_stop(d, ids, 1);
}

/// The identifier of a found intent reads back as the order identifier of its event.
pub proof fn law_found_identifier_reads_back(
    lock_type: Seq<char>,
    order_id: Seq<u8>,
    intent: IntentView,
    discovered_at: u64,
)
    ensures
        hex_bytes(
            without_0x(found_intent(lock_type, order_id, intent, discovered_at).id),
        ) == Some(order_id),
{
    law_hex_0x_round_trip(order_id);
}

} // verus!
