//! What the solver keeps and exchanges: orders, transactions, discovered intents and the
//! configuration of networks.

use std::collections::HashMap;
use vstd::prelude::*;
use crate::bytes::{copy_bytes, same_bytes};
use crate::intent::{IntentView, ShinobiIntent};
use crate::parsed::optional_text;
use crate::primitives::{Address, U256};
use crate::text::SolverAddress;

verus! {

// ---------------------------------------------------------------------------
// Configuration
// ---------------------------------------------------------------------------
/// How a network is reached.
#[derive(Debug, Clone, PartialEq, Eq)]
pub struct NetworkConfig {
    pub http_url: Option<String>,
    pub ws_url: Option<String>,
}

/// The networks by chain identifier.
pub type NetworksConfig = HashMap<u64, NetworkConfig>;

/// An oracle on a chain.
#[derive(Debug, Clone, PartialEq, Eq)]
pub struct OracleInfo {
    pub chain_id: u64,
    pub oracle: SolverAddress,
}

/// An oracle on a chain as a mathematical value.
#[verifier::ext_equal]
pub struct OracleView {
    pub chain_id: u64,
    pub oracle: Seq<u8>,
}

impl View for OracleInfo {
    type V = OracleView;

    open spec fn view(&self) -> OracleView {
        OracleView { chain_id: self.chain_id, oracle: self.oracle@ }
    }
}

/// Which oracles on which chains can be used together: for an oracle, those that it has a route
/// to.
#[derive(Debug, Clone, PartialEq, Eq)]
pub struct OracleRoutes {
    pub supported_routes: Vec<(OracleInfo, Vec<OracleInfo>)>,
}

/// A list of oracles as mathematical values.
pub open spec fn oracles_view(oracles: Seq<OracleInfo>) -> Seq<OracleView> {
    Seq::new(oracles.len(), |i: int| oracles[i]@)
}

impl View for OracleRoutes {
    type V = Seq<(OracleView, Seq<OracleView>)>;

    open spec fn view(&self) -> Seq<(OracleView, Seq<OracleView>)> {
        Seq::new(
            self.supported_routes@.len(),
            |i: int| (self.supported_routes@[i].0@, oracles_view(self.supported_routes@[i].1@)),
        )
    }
}

/// Whether there is a route from one oracle to another.
pub open spec fn has_route(
    routes: Seq<(OracleView, Seq<OracleView>)>,
    from: OracleView,
    to: OracleView,
) -> bool {
    exists|i: int|
        0 <= i < routes.len() && (#[trigger] routes[i]).0 == from && routes[i].1.contains(to)
}

impl OracleInfo {
    /// Whether this is a certain oracle on a certain chain.
    fn is_at(&self, chain_id: u64, oracle: &Address) -> (same: bool)
        ensures
            same == (self@ == OracleView { chain_id, oracle: oracle@ }),
    {
        self.chain_id == chain_id && same_bytes(self.oracle.0.as_slice(), &oracle.bytes)
    }
}

impl OracleRoutes {
    /// Whether there is a route from an oracle on one chain to an oracle on another.
    pub fn has_route(
        &self,
        from_chain: u64,
        from_oracle: &Address,
        to_chain: u64,
        to_oracle: &Address,
    ) -> (found: bool)
        ensures
            found == has_route(
                self@,
                OracleView { chain_id: from_chain, oracle: from_oracle@ },
                OracleView { chain_id: to_chain, oracle: to_oracle@ },
            ),
    {
        let ghost from = OracleView { chain_id: from_chain, oracle: from_oracle@ };
        let ghost to = OracleView { chain_id: to_chain, oracle: to_oracle@ };
        for i in 0..self.supported_routes.len()
            invariant
                from == (OracleView { chain_id: from_chain, oracle: from_oracle@ }),
                to == (OracleView { chain_id: to_chain, oracle: to_oracle@ }),
                forall|k: int|
                    0 <= k < i ==> !((#[trigger] self@[k]).0 == from && self@[k].1.contains(to)),
        {
            let route = &self.supported_routes[i];
            assert(self@[i as int] == (route.0@, oracles_view(route.1@)));
            if route.0.is_at(from_chain, from_oracle) {
                for j in 0..route.1.len()
                    invariant
                        from == (OracleView { chain_id: from_chain, oracle: from_oracle@ }),
                        to == (OracleView { chain_id: to_chain, oracle: to_oracle@ }),
                        i < self@.len(),
                        self@[i as int] == (from, oracles_view(route.1@)),
                        forall|k: int| 0 <= k < j ==> oracles_view(route.1@)[k] != to,
                {
                    if route.1[j].is_at(to_chain, to_oracle) {
                        assert(oracles_view(route.1@)[j as int] == to);
                        assert(self@[i as int].1.contains(to));
                        return true;
                    }
                }
            }
        }
        false
    }
}

/// Why a configuration is refused.
#[derive(Debug, Clone, PartialEq, Eq)]
pub struct ValidationError {
    pub message: String,
}

/// `toml::Value`, a configuration value: carried and not looked into.
#[verifier::external_type_specification]
#[verifier::external_body]
pub struct ExTomlValue(toml::Value);

// ---------------------------------------------------------------------------
// Orders
// ---------------------------------------------------------------------------
/// The settler contract of an order on one of its chains.
#[derive(Debug, Clone, PartialEq, Eq)]
pub struct ChainSettlerInfo {
    pub chain_id: u64,
    pub settler_address: SolverAddress,
}

/// The settlers of an order as pairs of chain and address.
pub open spec fn chains_view(chains: Seq<ChainSettlerInfo>) -> Seq<(u64, Seq<u8>)> {
    Seq::new(chains.len(), |i: int| (chains[i].chain_id, chains[i].settler_address@))
}

/// How far an order has come.
#[derive(Debug, Clone, Copy, PartialEq, Eq, Structural)]
pub enum OrderStatus {
    /// The order has been made and nothing done about it.
    Created,
}

/// Fees for a transaction.
#[derive(Debug, Clone, Copy, PartialEq, Eq, Structural)]
pub struct ExecutionParams {
    pub gas_price: U256,
    pub priority_fee: Option<U256>,
}

/// That an order was filled, and when.
#[derive(Debug, Clone, Copy, PartialEq, Eq, Structural)]
pub struct FillProof {
    pub filled_timestamp: u64,
}

/// What an order carries: the intent, and its ABI encoding in hexadecimal.
#[derive(Debug, Clone, PartialEq)]
pub struct OrderData {
    pub intent: Option<ShinobiIntent>,
    pub order_bytes: Option<String>,
}

/// What an order carries, as a mathematical value.
#[verifier::ext_equal]
pub struct OrderDataView {
    pub intent: Option<IntentView>,
    pub order_bytes: Option<Seq<char>>,
}

/// An optional intent as a mathematical value.
pub open spec fn optional_intent(intent: Option<ShinobiIntent>) -> Option<IntentView> {
    match intent {
        Some(i) => Some(i@),
        None => None,
    }
}

impl View for OrderData {
    type V = OrderDataView;

    open spec fn view(&self) -> OrderDataView {
        OrderDataView {
            intent: optional_intent(self.intent),
            order_bytes: optional_text(self.order_bytes),
        }
    }
}

/// An order that the solver works on.
#[derive(Debug, Clone, PartialEq)]
pub struct Order {
    pub id: String,
    pub standard: String,
    pub created_at: u64,
    pub updated_at: u64,
    pub status: OrderStatus,
    pub data: OrderData,
    pub solver_address: SolverAddress,
    pub quote_id: Option<String>,
    pub input_chains: Vec<ChainSettlerInfo>,
    pub output_chains: Vec<ChainSettlerInfo>,
    pub execution_params: Option<ExecutionParams>,
    pub prepare_tx_hash: Option<Vec<u8>>,
    pub fill_tx_hash: Option<Vec<u8>>,
    pub post_fill_tx_hash: Option<Vec<u8>>,
    pub pre_claim_tx_hash: Option<Vec<u8>>,
    pub claim_tx_hash: Option<Vec<u8>>,
    pub fill_proof: Option<FillProof>,
}

/// An order as a mathematical value.
#[verifier::ext_equal]
pub struct OrderView {
    pub id: Seq<char>,
    pub standard: Seq<char>,
    pub created_at: u64,
    pub updated_at: u64,
    pub status: OrderStatus,
    pub data: OrderDataView,
    pub solver_address: Seq<u8>,
    pub quote_id: Option<Seq<char>>,
    pub input_chains: Seq<(u64, Seq<u8>)>,
    pub output_chains: Seq<(u64, Seq<u8>)>,
    pub execution_params: Option<ExecutionParams>,
    pub prepare_tx_hash: Option<Seq<u8>>,
    pub fill_tx_hash: Option<Seq<u8>>,
    pub post_fill_tx_hash: Option<Seq<u8>>,
    pub pre_claim_tx_hash: Option<Seq<u8>>,
    pub claim_tx_hash: Option<Seq<u8>>,
    pub fill_proof: Option<FillProof>,
}

/// Optional bytes as a mathematical value.
pub open spec fn optional_bytes(bytes: Option<Vec<u8>>) -> Option<Seq<u8>> {
    match bytes {
        Some(b) => Some(b@),
        None => None,
    }
}

impl View for Order {
    type V = OrderView;

    open spec fn view(&self) -> OrderView {
        OrderView {
            id: self.id@,
            standard: self.standard@,
            created_at: self.created_at,
            updated_at: self.updated_at,
            status: self.status,
            data: self.data@,
            solver_address: self.solver_address@,
            quote_id: optional_text(self.quote_id),
            input_chains: chains_view(self.input_chains@),
            output_chains: chains_view(self.output_chains@),
            execution_params: self.execution_params,
            prepare_tx_hash: optional_bytes(self.prepare_tx_hash),
            fill_tx_hash: optional_bytes(self.fill_tx_hash),
            post_fill_tx_hash: optional_bytes(self.post_fill_tx_hash),
            pre_claim_tx_hash: optional_bytes(self.pre_claim_tx_hash),
            claim_tx_hash: optional_bytes(self.claim_tx_hash),
            fill_proof: self.fill_proof,
        }
    }
}

// ---------------------------------------------------------------------------
// Transactions
// ---------------------------------------------------------------------------
/// A transaction to be sent. What is `None` is left for whoever sends it.
#[derive(Debug, Clone, PartialEq, Eq)]
pub struct Transaction {
    pub to: Option<SolverAddress>,
    pub data: Vec<u8>,
    pub value: U256,
    pub chain_id: u64,
    pub nonce: Option<u64>,
    pub gas_limit: Option<u64>,
    pub gas_price: Option<u128>,
    pub max_fee_per_gas: Option<u128>,
    pub max_priority_fee_per_gas: Option<u128>,
}

/// A transaction as a mathematical value.
#[verifier::ext_equal]
pub struct TransactionView {
    pub to: Option<Seq<u8>>,
    pub data: Seq<u8>,
    pub value: nat,
    pub chain_id: u64,
    pub nonce: Option<u64>,
    pub gas_limit: Option<u64>,
    pub gas_price: Option<u128>,
    pub max_fee_per_gas: Option<u128>,
    pub max_priority_fee_per_gas: Option<u128>,
}

impl View for Transaction {
    type V = TransactionView;

    open spec fn view(&self) -> TransactionView {
        TransactionView {
            to: match self.to {
                Some(address) => Some(address@),
                None => None,
            },
            data: self.data@,
            value: self.value@,
            chain_id: self.chain_id,
            nonce: self.nonce,
            gas_limit: self.gas_limit,
            gas_price: self.gas_price,
            max_fee_per_gas: self.max_fee_per_gas,
            max_priority_fee_per_gas: self.max_priority_fee_per_gas,
        }
    }
}

/// A transaction with nothing but a receiver, calldata, a value and a chain.
pub open spec fn plain_transaction(
    to: Seq<u8>,
    data: Seq<u8>,
    value: nat,
    chain_id: u64,
) -> TransactionView {
    TransactionView {
        to: Some(to),
        data,
        value,
        chain_id,
        nonce: None,
        gas_limit: None,
        gas_price: None,
        max_fee_per_gas: None,
        max_priority_fee_per_gas: None,
    }
}

impl Transaction {
    /// A transaction with nothing but a receiver, calldata, a value and a chain.
    pub fn plain(to: Vec<u8>, data: Vec<u8>, value: U256, chain_id: u64) -> (tx: Transaction)
        ensures
            tx@ == plain_transaction(to@, data@, value@, chain_id),
    {
        Transaction {
            to: Some(SolverAddress(to)),
            data,
            value,
            chain_id,
            nonce: None,
            gas_limit: None,
            gas_price: None,
            max_fee_per_gas: None,
            max_priority_fee_per_gas: None,
        }
    }
}

// ---------------------------------------------------------------------------
// Discovered intents
// ---------------------------------------------------------------------------
/// How and when an intent was found.
#[derive(Debug, Clone, Copy, PartialEq, Eq, Structural)]
pub struct IntentMetadata {
    pub requires_auction: bool,
    pub exclusive_until: Option<u64>,
    pub discovered_at: u64,
}

/// An intent that was found and is handed on to the solver.
#[derive(Debug, Clone, PartialEq)]
pub struct Intent {
    pub id: String,
    pub source: String,
    pub standard: String,
    pub metadata: IntentMetadata,
    pub data: ShinobiIntent,
    pub order_bytes: Vec<u8>,
    pub quote_id: Option<String>,
    pub lock_type: String,
}

/// A found intent as a mathematical value.
#[verifier::ext_equal]
pub struct FoundView {
    pub id: Seq<char>,
    pub source: Seq<char>,
    pub standard: Seq<char>,
    pub metadata: IntentMetadata,
    pub data: IntentView,
    pub order_bytes: Seq<u8>,
    pub quote_id: Option<Seq<char>>,
    pub lock_type: Seq<char>,
}

impl View for Intent {
    type V = FoundView;

    open spec fn view(&self) -> FoundView {
        FoundView {
            id: self.id@,
            source: self.source@,
            standard: self.standard@,
            metadata: self.metadata,
            data: self.data@,
            order_bytes: self.order_bytes@,
            quote_id: optional_text(self.quote_id),
            lock_type: self.lock_type@,
        }
    }
}

// ---------------------------------------------------------------------------
// Helpers
// ---------------------------------------------------------------------------
/// A copy of an account address.
pub fn copy_address(address: &SolverAddress) -> (copy: SolverAddress)
    ensures
        copy@ == address@,
{
    SolverAddress(copy_bytes(address.0.as_slice()))
}

/// The keys of a map, each once, in no particular order.
pub fn chain_ids<V>(map: &HashMap<u64, V>) -> (ids: Vec<u64>)
    ensures
        ids@.no_duplicates(),
        ids@.to_set() == map@.dom(),
{
    let mut ids: Vec<u64> = Vec::new();
    for key in keys: map.keys()
        invariant
            ids@ == keys.seq().unref().take(keys.index()),
            keys.seq().unref().no_duplicates(),
            keys.seq().unref().to_set() == map@.dom(),
            keys.index() == keys.seq().len() ==> ids@ =~= keys.seq().unref(),
    {
        ids.push(*key);
        assert(keys.seq().unref().take(keys.index() + 1) =~= keys.seq().unref().take(
            keys.index(),
        ).push(*key));
    }
    ids
}

/// The low 32 bits of a number.
pub open spec fn low32(n: u64) -> u32 {
    (n % 0x1_0000_0000) as u32
}

/// The low 32 bits of a number.
pub fn truncate32(n: u64) -> (low: u32)
    ensures
        low == low32(n),
{
    (n % 0x1_0000_0000) as u32
}

} // verus!
