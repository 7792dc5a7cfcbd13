//! Shinobi orders: validation, and the transactions that fill and claim them.

use std::collections::HashMap;
use vstd::prelude::*;
use crate::abi::{abi_encoded_intent, decoded_as};
use crate::bytes::{append_bytes, copy_bytes};
use crate::intent::{
    destination_fits, destination_of, intent_error, IntentView, pays_native_eth, ShinobiIntent,
};
use crate::primitives::{Address, address_word, U256};
use crate::settler::{
    decode_outcome, decoded_view, fill_calldata, FILL_SIGNATURE, finalise_calldata,
    IShinobiInputSettler, IShinobiOutputSettler, selector, ShinobiIntentSol, solve_params_view,
    SolveParams,
};
use crate::settlers::{
    addresses_view, entries_view, map_message, map_readable, map_settlers, parse_map, parse_table,
    table_settlers,
};
use crate::text::{
    decimal, decimal_text, decode_hex, has_0x_prefix, hex_0x, hex_0x_text, hex_bytes,
    hex_error_text, law_hex_0x_round_trip, SolverAddress, without_0x, without_0x_prefix,
};
use crate::types::{
    chains_view, ChainSettlerInfo, copy_address, ExecutionParams, FillProof, has_route, low32,
    NetworkConfig, NetworksConfig, optional_intent, OracleRoutes, OracleView, Order, OrderData,
    OrderDataView, OrderStatus, OrderView, plain_transaction, Transaction, TransactionView,
    truncate32, ValidationError,
};

verus! {

/// Why an order is refused.
#[derive(Debug, Clone, PartialEq, Eq)]
pub enum OrderError {
    /// The order or its intent does not hold up.
    ValidationFailed(String),
}

impl OrderError {
    /// What the error says.
    pub open spec fn text(&self) -> Seq<char> {
        match self {
            OrderError::ValidationFailed(message) => message@,
        }
    }

    /// What the error says.
    pub fn message(&self) -> (message: &str)
        ensures
            message@ == self.text(),
    {
        match self {
            OrderError::ValidationFailed(message) => message.as_str(),
        }
    }
}

/// An outcome as a mathematical value: what was made, or what the error says.
pub open spec fn outcome<T: View>(result: Result<T, OrderError>) -> Result<T::V, Seq<char>> {
    match result {
        Ok(made) => Ok(made@),
        Err(e) => Err(e.text()),
    }
}

/// Configuration of the order implementation: settler addresses by chain.
#[derive(Debug, Clone)]
pub struct ShinobiOrderConfig {
    pub input_settlers: HashMap<u64, String>,
    pub output_settlers: HashMap<u64, String>,
}

/// Validates Shinobi orders and makes the transactions for them.
#[derive(Debug, Clone)]
pub struct ShinobiOrderImpl {
    networks: NetworksConfig,
    oracle_routes: OracleRoutes,
    input_settlers: HashMap<u64, Address>,
    output_settlers: HashMap<u64, Address>,
}

/// What an order implementation goes by, as a mathematical value.
#[verifier::ext_equal]
pub struct OrderRules {
    /// How each network is reached.
    pub networks: Map<u64, NetworkConfig>,
    /// Which oracles can be used together.
    pub routes: Seq<(OracleView, Seq<OracleView>)>,
    /// The input settlers by chain.
    pub inputs: Map<u64, Seq<u8>>,
    /// The output settlers by chain.
    pub outputs: Map<u64, Seq<u8>>,
}

impl View for ShinobiOrderImpl {
    type V = OrderRules;

    closed spec fn view(&self) -> OrderRules {
        OrderRules {
            networks: self.networks@,
            routes: self.oracle_routes@,
            inputs: addresses_view(self.input_settlers@),
            outputs: addresses_view(self.output_settlers@),
        }
    }
}

// ---------------------------------------------------------------------------
// Making one
// ---------------------------------------------------------------------------
/// The settlers that two tables give, input side first, or what is wrong with them.
pub open spec fn tables_settlers(
    inputs: Seq<(Seq<char>, Seq<char>)>,
    outputs: Seq<(Seq<char>, Seq<char>)>,
) -> Result<(Map<u64, Seq<u8>>, Map<u64, Seq<u8>>), Seq<char>> {
    match table_settlers("Invalid input settler address for chain "@, inputs) {
        Err(e) => Err(e),
        Ok(input_settlers) => match table_settlers(
            "Invalid output settler address for chain "@,
            outputs,
        ) {
            Err(e) => Err(e),
            Ok(output_settlers) => if input_settlers.dom() == Set::<u64>::empty() {
                Err("At least one input settler must be configured"@)
            } else if output_settlers.dom() == Set::<u64>::empty() {
                Err("At least one output settler must be configured"@)
            } else {
                Ok((input_settlers, output_settlers))
            },
        },
    }
}

/// The message of a configuration that is refused: about an input address, then about an output
/// address, then about a side without settlers.
pub open spec fn config_message(config: ShinobiOrderConfig, message: Seq<char>) -> bool {
    if !map_readable(config.input_settlers@) {
        map_message(
            "Invalid input settler address for chain "@,
            config.input_settlers@,
            message,
        )
    } else if !map_readable(config.output_settlers@) {
        map_message(
            "Invalid output settler address for chain "@,
            config.output_settlers@,
            message,
        )
    } else if config.input_settlers@.dom() == Set::<u64>::empty() {
        message == "At least one input settler must be configured"@
    } else {
        config.output_settlers@.dom() == Set::<u64>::empty() && message
            == "At least one output settler must be configured"@
    }
}

impl ShinobiOrderImpl {
    /// There is at least one settler on either side.
    pub open spec fn wf(&self) -> bool {
        &&& self@.inputs.dom() != Set::<u64>::empty()
        &&& self@.outputs.dom() != Set::<u64>::empty()
    }

    /// Puts the settlers together, where neither side is empty.
    fn with_settlers(
        input_settlers: HashMap<u64, Address>,
        output_settlers: HashMap<u64, Address>,
        networks: NetworksConfig,
        oracle_routes: OracleRoutes,
    ) -> (made: Result<ShinobiOrderImpl, OrderError>)
        ensures
            match made {
                Ok(order_impl) => order_impl.wf() && order_impl@ == (OrderRules {
                    networks: networks@,
                    routes: oracle_routes@,
                    inputs: addresses_view(input_settlers@),
                    outputs: addresses_view(output_settlers@),
                }),
                Err(e) => if addresses_view(input_settlers@).dom() == Set::<u64>::empty() {
                    e.text() == "At least one input settler must be configured"@
                } else {
                    addresses_view(output_settlers@).dom() == Set::<u64>::empty() && e.text()
                        == "At least one output settler must be configured"@
                },
            },
    {
        proof {
            lemma_empty_settlers(input_settlers@);
            lemma_empty_settlers(output_settlers@);
        }
        if input_settlers.is_empty() {
            return Err(
                OrderError::ValidationFailed(
                    "At least one input settler must be configured".to_owned(),
                ),
            );
        }
        if output_settlers.is_empty() {
            return Err(
                OrderError::ValidationFailed(
                    "At least one output settler must be configured".to_owned(),
                ),
            );
        }
        Ok(ShinobiOrderImpl { networks, oracle_routes, input_settlers, output_settlers })
    }

    /// Makes an order implementation from two tables of chain identifiers and addresses, both
    /// as text, whose entries are taken in their order.
    pub fn new(
        input_table: &Vec<(String, String)>,
        output_table: &Vec<(String, String)>,
        networks: NetworksConfig,
        oracle_routes: OracleRoutes,
    ) -> (made: Result<ShinobiOrderImpl, OrderError>)
        ensures
            match made {
                Ok(order_impl) => {
                    &&& order_impl.wf()
                    &&& order_impl@.networks == networks@
                    &&& order_impl@.routes == oracle_routes@
                    &&& tables_settlers(entries_view(input_table@), entries_view(output_table@))
                        == Ok::<(Map<u64, Seq<u8>>, Map<u64, Seq<u8>>), Seq<char>>(
                        (order_impl@.inputs, order_impl@.outputs),
                    )
                },
                Err(e) => tables_settlers(entries_view(input_table@), entries_view(output_table@))
                    == Err::<(Map<u64, Seq<u8>>, Map<u64, Seq<u8>>), Seq<char>>(e.text()),
            },
    {
        let input_settlers = match parse_table(
            "Invalid input settler address for chain ",
            input_table,
        ) {
            Ok(settlers) => settlers,
            Err(e) => {
                return Err(OrderError::ValidationFailed(e));
            },
        };
        let output_settlers = match parse_table(
            "Invalid output settler address for chain ",
            output_table,
        ) {
            Ok(settlers) => settlers,
            Err(e) => {
                return Err(OrderError::ValidationFailed(e));
            },
        };
        ShinobiOrderImpl::with_settlers(input_settlers, output_settlers, networks, oracle_routes)
    }

    /// Makes an order implementation from a configuration.
    pub fn from_config(
        config: &ShinobiOrderConfig,
        networks: NetworksConfig,
        oracle_routes: OracleRoutes,
    ) -> (made: Result<ShinobiOrderImpl, OrderError>)
        ensures
            match made {
                Ok(order_impl) => {
                    &&& order_impl.wf()
                    &&& map_readable(config.input_settlers@)
                    &&& map_readable(config.output_settlers@)
                    &&& order_impl@ == (OrderRules {
                        networks: networks@,
                        routes: oracle_routes@,
                        inputs: map_settlers(config.input_settlers@),
                        outputs: map_settlers(config.output_settlers@),
                    })
                },
                Err(e) => config_message(*config, e.text()),
            },
    {
        let input_settlers = match parse_map(
            "Invalid input settler address for chain ",
            &config.input_settlers,
        ) {
            Ok(settlers) => settlers,
            Err(e) => {
                return Err(OrderError::ValidationFailed(e));
            },
        };
        let output_settlers = match parse_map(
            "Invalid output settler address for chain ",
            &config.output_settlers,
        ) {
            Ok(settlers) => settlers,
            Err(e) => {
                return Err(OrderError::ValidationFailed(e));
            },
        };
        assert(map_settlers(config.input_settlers@).dom() =~= config.input_settlers@.dom());
        assert(map_settlers(config.output_settlers@).dom() =~= config.output_settlers@.dom());
        ShinobiOrderImpl::with_settlers(input_settlers, output_settlers, networks, oracle_routes)
    }
}

/// A map of settlers is empty exactly where its addresses are.
proof fn lemma_empty_settlers(settlers: Map<u64, Address>)
    ensures
        addresses_view(settlers).dom() == settlers.dom(),
{
    assert(addresses_view(settlers).dom() =~= settlers.dom());
}

// ---------------------------------------------------------------------------
// Checking an intent
// ---------------------------------------------------------------------------
/// Whether nothing is wrong with an intent before its destination is looked at: it is well
/// formed, its times lie ahead, and its origin has a settler.
pub open spec fn origin_accepted(rules: OrderRules, intent: IntentView, now: u64) -> bool {
    &&& intent_error(intent) is None
    &&& intent.fill_deadline > low32(now)
    &&& intent.expires > low32(now)
    &&& rules.inputs.contains_key(intent.origin_chain_id as u64)
}

/// The oracle that the origin chain asks about fills.
pub open spec fn origin_oracle(intent: IntentView) -> OracleView {
    OracleView { chain_id: intent.origin_chain_id as u64, oracle: intent.fill_oracle }
}

/// The oracle that the destination chain asks about the creation of the intent.
pub open spec fn destination_oracle(intent: IntentView) -> OracleView {
    OracleView { chain_id: destination_of(intent)->0, oracle: intent.intent_oracle }
}

/// Whether the two oracles of an intent can be used together: there is a route between them, or
/// no routes are configured at all.
pub open spec fn route_supported(
    routes: Seq<(OracleView, Seq<OracleView>)>,
    intent: IntentView,
) -> bool {
    routes.len() == 0 || has_route(routes, origin_oracle(intent), destination_oracle(intent))
}

/// What is said of an intent whose oracles cannot be used together.
pub open spec fn route_message(intent: IntentView) -> Seq<char> {
    "No oracle route from "@ + hex_0x(intent.fill_oracle) + " on chain "@ + decimal(
        intent.origin_chain_id,
    ) + " to "@ + hex_0x(intent.intent_oracle) + " on chain "@ + decimal(
        destination_of(intent)->0 as nat,
    )
}

/// Why an intent is refused at a time, if it is. The time is taken by its low 32 bits.
pub open spec fn refusal(rules: OrderRules, intent: IntentView, now: u64) -> Option<Seq<char>> {
    if intent_error(intent) is Some {
        intent_error(intent)
    } else if intent.fill_deadline <= low32(now) {
        Some("Fill deadline has passed"@)
    } else if intent.expires <= low32(now) {
        Some("Intent has expired"@)
    } else if !rules.inputs.contains_key(intent.origin_chain_id as u64) {
        Some("No input settler for origin chain "@ + decimal(intent.origin_chain_id))
    } else if !rules.outputs.contains_key(destination_of(intent)->0) {
        Some(
            "No output settler for destination chain "@ + decimal(destination_of(intent)->0 as nat),
        )
    } else if !route_supported(rules.routes, intent) {
        Some(route_message(intent))
    } else {
        None
    }
}

/// A message that ends in a chain identifier.
fn chain_message(text: &str, chain_id: u64) -> (message: String)
    ensures
        message@ == text@ + decimal(chain_id as nat),
{
    text.to_owned().concat(decimal_text(chain_id).as_str())
}

/// The message about an intent whose oracles cannot be used together.
fn route_message_text(intent: &ShinobiIntent, dest_chain: u64) -> (message: String)
    requires
        destination_of(intent@) == Some(dest_chain),
    ensures
        message@ == route_message(intent@),
{
    let mut message = "No oracle route from ".to_owned();
    message.append(hex_0x_text(&intent.fill_oracle.bytes).as_str());
    message.append(" on chain ");
    message.append(decimal_text(intent.origin_chain_id).as_str());
    message.append(" to ");
    message.append(hex_0x_text(&intent.intent_oracle.bytes).as_str());
    message.append(" on chain ");
    message.append(decimal_text(dest_chain).as_str());
    message
}

impl ShinobiOrderImpl {
    /// Checks the structure of an intent, its times against `now`, that there are settlers on its
    /// origin and destination chains, and that its oracles can be used together.
    pub fn validate_intent(&self, intent: &ShinobiIntent, now: u64) -> (checked: Result<
        (),
        OrderError,
    >)
        requires
            origin_accepted(self@, intent@, now) ==> destination_fits(intent@),
        ensures
            match checked {
                Ok(_) => refusal(self@, intent@, now) is None,
                Err(e) => refusal(self@, intent@, now) == Some(e.text()),
            },
    {
        match intent.validate() {
            Ok(_) => {},
            Err(e) => {
                return Err(OrderError::ValidationFailed(e));
            },
        }
        let now32: u32 = truncate32(now);
        if intent.fill_deadline <= now32 {
            return Err(OrderError::ValidationFailed("Fill deadline has passed".to_owned()));
        }
        if intent.expires <= now32 {
            return Err(OrderError::ValidationFailed("Intent has expired".to_owned()));
        }
        if !self.input_settlers.contains_key(&intent.origin_chain_id) {
            return Err(
                OrderError::ValidationFailed(
                    chain_message("No input settler for origin chain ", intent.origin_chain_id),
                ),
            );
        }
        match intent.destination_chain_id() {
            Some(dest_chain) => {
                if !self.output_settlers.contains_key(&dest_chain) {
                    return Err(
                        OrderError::ValidationFailed(
                            chain_message("No output settler for destination chain ", dest_chain),
                        ),
                    );
                }
                if self.oracle_routes.supported_routes.len() > 0 && !self.oracle_routes.has_route(
                    intent.origin_chain_id,
                    &intent.fill_oracle,
                    dest_chain,
                    &intent.intent_oracle,
                ) {
                    return Err(
                        OrderError::ValidationFailed(route_message_text(intent, dest_chain)),
                    );
                }
            },
            None => {
                return Err(OrderError::ValidationFailed("No outputs defined".to_owned()));
            },
        }
        Ok(())
    }

    /// The input settler of a chain.
    pub fn get_input_settler(&self, chain_id: u64) -> (settler: Result<Address, OrderError>)
        ensures
            match settler {
                Ok(address) => self@.inputs.contains_key(chain_id) && address@
                    == self@.inputs[chain_id],
                Err(e) => !self@.inputs.contains_key(chain_id) && e.text()
                    == "No input settler for chain "@ + decimal(chain_id as nat),
            },
    {
        match self.input_settlers.get(&chain_id) {
            Some(address) => Ok(*address),
            None => Err(
                OrderError::ValidationFailed(
                    chain_message("No input settler for chain ", chain_id),
                ),
            ),
        }
    }

    /// The output settler of a chain.
    pub fn get_output_settler(&self, chain_id: u64) -> (settler: Result<Address, OrderError>)
        ensures
            match settler {
                Ok(address) => self@.outputs.contains_key(chain_id) && address@
                    == self@.outputs[chain_id],
                Err(e) => !self@.outputs.contains_key(chain_id) && e.text()
                    == "No output settler for chain "@ + decimal(chain_id as nat),
            },
    {
        match self.output_settlers.get(&chain_id) {
            Some(address) => Ok(*address),
            None => Err(
                OrderError::ValidationFailed(
                    chain_message("No output settler for chain ", chain_id),
                ),
            ),
        }
    }
}

// ---------------------------------------------------------------------------
// Reading the intent of an order
// ---------------------------------------------------------------------------
/// The bytes that an order carries, or why they cannot be had. A leading `0x` makes no difference.
pub open spec fn order_bytes_outcome(data: OrderDataView) -> Result<Seq<u8>, Seq<char>> {
    match data.order_bytes {
        None => Err("Missing order_bytes in data"@),
        Some(text) => match hex_bytes(without_0x(text)) {
            Some(bytes) => Ok(bytes),
            None => Err("Invalid order_bytes hex: "@ + hex_error_text(without_0x(text))),
        },
    }
}

/// The intent that bytes are the ABI encoding of, or what is reported of bytes that are not one.
pub open spec fn bytes_outcome(bytes: Seq<u8>) -> Result<IntentView, Seq<char>> {
    match decode_outcome(bytes) {
        Ok(intent) => Ok(intent),
        Err(e) => Err("Failed to decode ShinobiIntent: "@ + e),
    }
}

/// The intent that an order carries, or why it carries none.
pub open spec fn order_outcome(data: OrderDataView) -> Result<IntentView, Seq<char>> {
    match order_bytes_outcome(data) {
        Ok(bytes) => bytes_outcome(bytes),
        Err(e) => Err(e),
    }
}

/// Whether the origin chain of an intent, if there is an intent, has an identifier of 64 bits.
pub open spec fn origin_fits(intent: Result<IntentView, Seq<char>>) -> bool {
    intent matches Ok(v) ==> v.origin_chain_id <= u64::MAX
}

/// The outcome of decoding, as an order implementation reports it.
pub fn report_decoded(decoded: Result<ShinobiIntentSol, String>) -> (reported: Result<
    ShinobiIntentSol,
    OrderError,
>)
    ensures
        match decoded {
            Ok(sol) => reported == Ok::<ShinobiIntentSol, OrderError>(sol),
            Err(e) => reported matches Err(r) && r.text() == "Failed to decode ShinobiIntent: "@
                + e@,
        },
{
    match decoded {
        Ok(sol) => Ok(sol),
        Err(e) => Err(
            OrderError::ValidationFailed(
                "Failed to decode ShinobiIntent: ".to_owned().concat(e.as_str()),
            ),
        ),
    }
}

/// Decodes an intent from its ABI encoding, and reports bytes that are not exactly one.
fn decode_intent_bytes(bytes: &[u8]) -> (decoded: Result<ShinobiIntentSol, OrderError>)
    ensures
        outcome(decoded) == bytes_outcome(bytes@),
        decoded matches Ok(sol) ==> abi_encoded_intent(sol@) == bytes@,
{
    let decoded = ShinobiIntentSol::abi_decode(bytes);
    assert(decoded_view(decoded) == decode_outcome(bytes@));
    report_decoded(decoded)
}

/// Decodes the intent that an order carries.
fn decode_order(order: &Order) -> (decoded: Result<ShinobiIntentSol, OrderError>)
    ensures
        outcome(decoded) == order_outcome(order@.data),
        decoded matches Ok(sol) ==> order_bytes_outcome(order@.data) matches Ok(bytes)
            && abi_encoded_intent(sol@) == bytes,
{
    let text = match &order.data.order_bytes {
        Some(text) => text,
        None => {
            return Err(OrderError::ValidationFailed("Missing order_bytes in data".to_owned()));
        },
    };
    let bytes = match decode_hex(without_0x_prefix(text.as_str())) {
        Ok(bytes) => bytes,
        Err(e) => {
            return Err(
                OrderError::ValidationFailed(
                    "Invalid order_bytes hex: ".to_owned().concat(e.as_str()),
                ),
            );
        },
    };
    decode_intent_bytes(bytes.as_slice())
}

impl ShinobiOrderImpl {
    /// Reads the intent of an order from the bytes that it carries.
    pub fn parse_intent(&self, order: &Order) -> (parsed: Result<ShinobiIntent, OrderError>)
        requires
            origin_fits(order_outcome(order@.data)),
        ensures
            outcome(parsed) == order_outcome(order@.data),
            parsed matches Ok(intent) ==> order_bytes_outcome(order@.data) matches Ok(bytes)
                && abi_encoded_intent(intent@) == bytes,
    {
        match decode_order(order) {
            Ok(sol) => Ok(ShinobiIntent::from_sol(sol)),
            Err(e) => Err(e),
        }
    }

    /// Reads the intent of an order, or gives nothing where its origin chain does not fit in 64
    /// bits.
    pub fn try_parse_intent(&self, order: &Order) -> (parsed: Option<
        Result<ShinobiIntent, OrderError>,
    >)
        ensures
            match parsed {
                Some(result) => origin_fits(order_outcome(order@.data)) && outcome(result)
                    == order_outcome(order@.data),
                None => !origin_fits(order_outcome(order@.data)),
            },
    {
        match decode_order(order) {
            Ok(sol) => if sol.originChainId.try_to_u64().is_some() {
                Some(self.parse_intent(order))
            } else {
                None
            },
            Err(e) => Some(Err(e)),
        }
    }
}

// ---------------------------------------------------------------------------
// Filling
// ---------------------------------------------------------------------------
/// What filling an intent at a time comes to: a call of `fill` on the output settler of the
/// destination chain, which carries the first output's amount where that is native ETH, or the
/// reason why the intent is refused.
pub open spec fn fill_outcome(rules: OrderRules, intent: IntentView, now: u64) -> Result<
    TransactionView,
    Seq<char>,
> {
    match refusal(rules, intent, now) {
        Some(e) => Err(e),
        None => Ok(
            plain_transaction(
                rules.outputs[destination_of(intent)->0],
                fill_calldata(intent),
                if pays_native_eth(intent) {
                    intent.outputs[0].amount
                } else {
                    0
                },
                destination_of(intent)->0,
            ),
        ),
    }
}

/// What filling an order at a time comes to.
pub open spec fn fill_order_outcome(rules: OrderRules, data: OrderDataView, now: u64) -> Result<
    TransactionView,
    Seq<char>,
> {
    match order_outcome(data) {
        Ok(intent) => fill_outcome(rules, intent, now),
        Err(e) => Err(e),
    }
}

/// Whether an intent can be checked at a time: its destination fits in 64 bits, if that comes to
/// be looked at.
pub open spec fn checkable(
    rules: OrderRules,
    intent: Result<IntentView, Seq<char>>,
    now: u64,
) -> bool {
    intent matches Ok(v) ==> (origin_accepted(rules, v, now) ==> destination_fits(v))
}

impl ShinobiOrderImpl {
    /// The transaction that fills an intent.
    pub fn fill_transaction(&self, intent: ShinobiIntent, now: u64) -> (filled: Result<
        Transaction,
        OrderError,
    >)
        requires
            origin_accepted(self@, intent@, now) ==> destination_fits(intent@),
        ensures
            outcome(filled) == fill_outcome(self@, intent@, now),
    {
        match self.validate_intent(&intent, now) {
            Ok(_) => {},
            Err(e) => {
                return Err(e);
            },
        }
        let dest_chain_id: u64 = match intent.destination_chain_id() {
            Some(dest_chain_id) => dest_chain_id,
            None => {
                return Err(
                    OrderError::ValidationFailed("No destination chain in intent".to_owned()),
                );
            },
        };
        let output_settler = match self.get_output_settler(dest_chain_id) {
            Ok(output_settler) => output_settler,
            Err(e) => {
                return Err(e);
            },
        };
        let value = if intent.is_native_eth_output() {
            assert(intent@.outputs[0] == intent.outputs@[0]@);
            intent.outputs[0].amount
        } else {
            U256::zero()
        };
        let sol_intent = ShinobiIntentSol::from(intent);
        let data = IShinobiOutputSettler::fill_call(&sol_intent);
        Ok(Transaction::plain(output_settler.to_vec(), data, value, dest_chain_id))
    }

    /// The transaction that fills an order. The fees are left to whoever sends it. The call
    /// hands on the bytes of the order as they are.
    pub fn generate_fill_transaction(
        &self,
        order: &Order,
        _params: &ExecutionParams,
        now: u64,
    ) -> (filled: Result<Transaction, OrderError>)
        requires
            origin_fits(order_outcome(order@.data)),
            checkable(self@, order_outcome(order@.data), now),
        ensures
            outcome(filled) == fill_order_outcome(self@, order@.data, now),
            filled matches Ok(tx) ==> order_bytes_outcome(order@.data) matches Ok(bytes)
                && tx@.data == selector(FILL_SIGNATURE@) + bytes,
    {
        match self.parse_intent(order) {
            Ok(intent) => self.fill_transaction(intent, now),
            Err(e) => Err(e),
        }
    }

    /// The transaction that fills an order, or nothing where a chain identifier that is needed
    /// does not fit in 64 bits.
    pub fn try_generate_fill_transaction(
        &self,
        order: &Order,
        params: &ExecutionParams,
        now: u64,
    ) -> (filled: Option<Result<Transaction, OrderError>>)
        ensures
            filled is Some <==> origin_fits(order_outcome(order@.data)) && checkable(
                self@,
                order_outcome(order@.data),
                now,
            ),
            filled matches Some(result) ==> outcome(result) == fill_order_outcome(
                self@,
                order@.data,
                now,
            ),
    {
        match self.try_parse_intent(order) {
            Some(Ok(intent)) => if self.can_check(&intent, now) {
                Some(self.generate_fill_transaction(order, params, now))
            } else {
                None
            },
            Some(Err(e)) => Some(Err(e)),
            None => None,
        }
    }

    /// Whether an intent can be checked at a time: its destination fits in 64 bits, or an earlier
    /// check refuses the intent.
    pub fn can_check(&self, intent: &ShinobiIntent, now: u64) -> (can: bool)
        ensures
            can == (origin_accepted(self@, intent@, now) ==> destination_fits(intent@)),
    {
        if intent.outputs.len() == 0 {
            return true;
        }
        assert(intent@.outputs[0] == intent.outputs@[0]@);
        if intent.outputs[0].chain_id.try_to_u64().is_some() {
            return true;
        }
        let now32: u32 = truncate32(now);
        intent.validate().is_err() || intent.fill_deadline <= now32 || intent.expires <= now32
            || !self.input_settlers.contains_key(&intent.origin_chain_id)
    }
}

// ---------------------------------------------------------------------------
// Claiming
// ---------------------------------------------------------------------------
/// What claiming for an intent comes to: a call of `finalise` on the input settler of the origin
/// chain, for one fill by the solver, with the solver as the destination.
pub open spec fn claim_outcome(
    rules: OrderRules,
    intent: IntentView,
    solver: Seq<u8>,
    filled_timestamp: u64,
) -> Result<TransactionView, Seq<char>> {
    let origin = intent.origin_chain_id as u64;
    if rules.inputs.contains_key(origin) {
        Ok(
            plain_transaction(
                rules.inputs[origin],
                finalise_calldata(
                    intent,
                    seq![(low32(filled_timestamp), address_word(solver))],
                    address_word(solver),
                ),
                0,
                origin,
            ),
        )
    } else {
        Err("No input settler for chain "@ + decimal(origin as nat))
    }
}

/// What claiming for an order comes to.
pub open spec fn claim_order_outcome(
    rules: OrderRules,
    order: OrderView,
    filled_timestamp: u64,
) -> Result<TransactionView, Seq<char>> {
    match order_outcome(order.data) {
        Ok(intent) => claim_outcome(rules, intent, order.solver_address, filled_timestamp),
        Err(e) => Err(e),
    }
}

/// Whether the solver's address has twenty bytes, if it comes to be used.
pub open spec fn claimable(
    rules: OrderRules,
    intent: Result<IntentView, Seq<char>>,
    solver: Seq<u8>,
) -> bool {
    intent matches Ok(v) ==> (rules.inputs.contains_key(v.origin_chain_id as u64)
        ==> solver.len() == 20)
}

/// The 32-byte word of an address of twenty bytes.
fn solver_word(address: &SolverAddress) -> (bytes32: [u8; 32])
    requires
        address@.len() == 20,
    ensures
        bytes32@ == address_word(address@),
{
    let mut bytes32 = [0u8; 32];
    for i in 0..20
        invariant
            address@.len() == 20,
            forall|j: int| 0 <= j < 12 ==> bytes32@[j] == 0,
            forall|j: int| 0 <= j < i ==> bytes32@[12 + j] == address@[j],
    {
        bytes32[12 + i] = address.0[i];
    }
    assert(bytes32@ =~= address_word(address@));
    bytes32
}

impl ShinobiOrderImpl {
    /// The transaction that claims the escrow of an intent for the solver.
    pub fn claim_transaction(
        &self,
        intent: ShinobiIntent,
        solver: &SolverAddress,
        fill_proof: &FillProof,
    ) -> (claimed: Result<Transaction, OrderError>)
        requires
            self@.inputs.contains_key(intent@.origin_chain_id as u64) ==> solver@.len() == 20,
        ensures
            outcome(claimed) == claim_outcome(
                self@,
                intent@,
                solver@,
                fill_proof.filled_timestamp,
            ),
    {
        let origin_chain_id: u64 = intent.origin_chain_id;
        let input_settler = match self.get_input_settler(origin_chain_id) {
            Ok(input_settler) => input_settler,
            Err(e) => {
                return Err(e);
            },
        };
        let sol_intent = ShinobiIntentSol::from(intent);
        let solver_bytes32 = solver_word(solver);
        let mut solve_params: Vec<SolveParams> = Vec::new();
        solve_params.push(
            SolveParams {
                timestamp: truncate32(fill_proof.filled_timestamp),
                solver: solver_bytes32,
            },
        );
        assert(solve_params_view(solve_params@) =~= seq![
            (low32(fill_proof.filled_timestamp), address_word(solver@)),
        ]);
        let data = IShinobiInputSettler::finalise_call(&sol_intent, &solve_params, solver_bytes32);
        Ok(Transaction::plain(input_settler.to_vec(), data, U256::zero(), origin_chain_id))
    }

    /// The transaction that claims the escrow of an order for its solver.
    pub fn generate_claim_transaction(&self, order: &Order, fill_proof: &FillProof) -> (claimed:
        Result<Transaction, OrderError>)
        requires
            origin_fits(order_outcome(order@.data)),
            claimable(self@, order_outcome(order@.data), order@.solver_address),
        ensures
            outcome(claimed) == claim_order_outcome(self@, order@, fill_proof.filled_timestamp),
    {
        match self.parse_intent(order) {
            Ok(intent) => self.claim_transaction(intent, &order.solver_address, fill_proof),
            Err(e) => Err(e),
        }
    }

    /// The transaction that claims the escrow of an order, or nothing where the origin chain does
    /// not fit in 64 bits or a solver address that is needed does not have twenty bytes.
    pub fn try_generate_claim_transaction(
        &self,
        order: &Order,
        fill_proof: &FillProof,
    ) -> (claimed: Option<Result<Transaction, OrderError>>)
        ensures
            claimed is Some <==> origin_fits(order_outcome(order@.data)) && claimable(
                self@,
                order_outcome(order@.data),
                order@.solver_address,
            ),
            claimed matches Some(result) ==> outcome(result) == claim_order_outcome(
                self@,
                order@,
                fill_proof.filled_timestamp,
            ),
    {
        match self.try_parse_intent(order) {
            Some(Ok(intent)) => if order.solver_address.0.len() == 20
                || !self.input_settlers.contains_key(&intent.origin_chain_id) {
                Some(self.generate_claim_transaction(order, fill_proof))
            } else {
                None
            },
            Some(Err(e)) => Some(Err(e)),
            None => None,
        }
    }
}

// ---------------------------------------------------------------------------
// Creating an order
// ---------------------------------------------------------------------------
/// An order in the making: everything but its identifier, which the origin chain computes from
/// `tx_data`.
#[derive(Debug, Clone, PartialEq)]
pub struct OrderDraft {
    /// The decoded intent.
    pub intent: ShinobiIntent,
    /// The bytes that it was decoded from.
    pub order_bytes: Vec<u8>,
    /// The chain to ask for the identifier.
    pub origin_chain_id: u64,
    /// What to ask it with: the settler's address, then the order bytes.
    pub tx_data: Vec<u8>,
    pub input_chains: Vec<ChainSettlerInfo>,
    pub output_chains: Vec<ChainSettlerInfo>,
}

/// An order in the making as a mathematical value.
#[verifier::ext_equal]
pub struct DraftView {
    pub intent: IntentView,
    pub order_bytes: Seq<u8>,
    pub origin_chain_id: u64,
    pub tx_data: Seq<u8>,
    pub input_chains: Seq<(u64, Seq<u8>)>,
    pub output_chains: Seq<(u64, Seq<u8>)>,
}

impl View for OrderDraft {
    type V = DraftView;

    open spec fn view(&self) -> DraftView {
        DraftView {
            intent: self.intent@,
            order_bytes: self.order_bytes@,
            origin_chain_id: self.origin_chain_id,
            tx_data: self.tx_data@,
            input_chains: chains_view(self.input_chains@),
            output_chains: chains_view(self.output_chains@),
        }
    }
}

/// The draft of an order for an intent that is accepted: one settler on the origin chain and one
/// on the destination chain.
pub open spec fn draft_of(
    rules: OrderRules,
    intent: IntentView,
    order_bytes: Seq<u8>,
) -> DraftView {
    let origin = intent.origin_chain_id as u64;
    let destination = destination_of(intent)->0;
    DraftView {
        intent,
        order_bytes,
        origin_chain_id: origin,
        tx_data: rules.inputs[origin] + order_bytes,
        input_chains: seq![(origin, rules.inputs[origin])],
        output_chains: seq![(destination, rules.outputs[destination])],
    }
}

/// What drafting an order for an intent at a time comes to.
pub open spec fn draft_outcome(
    rules: OrderRules,
    intent: IntentView,
    order_bytes: Seq<u8>,
    now: u64,
) -> Result<DraftView, Seq<char>> {
    match refusal(rules, intent, now) {
        Some(e) => Err(e),
        None => Ok(draft_of(rules, intent, order_bytes)),
    }
}

/// What preparing an order from the ABI encoding of an intent comes to.
pub open spec fn prepare_outcome(rules: OrderRules, order_bytes: Seq<u8>, now: u64) -> Result<
    DraftView,
    Seq<char>,
> {
    match bytes_outcome(order_bytes) {
        Ok(intent) => draft_outcome(rules, intent, order_bytes, now),
        Err(e) => Err(e),
    }
}

/// The order that a draft becomes under an identifier.
pub open spec fn created_order(
    draft: DraftView,
    id: Seq<u8>,
    intent_data: Option<IntentView>,
    solver: Seq<u8>,
    now: u64,
) -> OrderView {
    OrderView {
        id: hex_0x(id),
        standard: "shinobi"@,
        created_at: now,
        updated_at: now,
        status: OrderStatus::Created,
        data: OrderDataView {
            intent: match intent_data {
                Some(given) => Some(given),
                None => Some(draft.intent),
            },
            order_bytes: Some(hex_0x(draft.order_bytes)),
        },
        solver_address: solver,
        quote_id: None,
        input_chains: draft.input_chains,
        output_chains: draft.output_chains,
        execution_params: None,
        prepare_tx_hash: None,
        fill_tx_hash: None,
        post_fill_tx_hash: None,
        pre_claim_tx_hash: None,
        claim_tx_hash: None,
        fill_proof: None,
    }
}

/// One settler on one chain.
fn single_chain(chain_id: u64, settler: &Address) -> (chains: Vec<ChainSettlerInfo>)
    ensures
        chains_view(chains@) == seq![(chain_id, settler@)],
{
    let mut chains: Vec<ChainSettlerInfo> = Vec::new();
    chains.push(ChainSettlerInfo { chain_id, settler_address: SolverAddress(settler.to_vec()) });
    assert(chains_view(chains@) =~= seq![(chain_id, settler@)]);
    chains
}

impl ShinobiOrderImpl {
    /// Drafts an order for an intent, whose ABI encoding is `order_bytes`.
    pub fn draft_order(&self, intent: ShinobiIntent, order_bytes: &[u8], now: u64) -> (draft:
        Result<OrderDraft, OrderError>)
        requires
            origin_accepted(self@, intent@, now) ==> destination_fits(intent@),
        ensures
            outcome(draft) == draft_outcome(self@, intent@, order_bytes@, now),
    {
        match self.validate_intent(&intent, now) {
            Ok(_) => {},
            Err(e) => {
                return Err(e);
            },
        }
        let origin_chain_id: u64 = intent.origin_chain_id;
        let destination_chain_id: u64 = match intent.destination_chain_id() {
            Some(destination_chain_id) => destination_chain_id,
            None => {
                return Err(
                    OrderError::ValidationFailed("No destination chain in intent".to_owned()),
                );
            },
        };
        let input_settler = match self.get_input_settler(origin_chain_id) {
            Ok(input_settler) => input_settler,
            Err(e) => {
                return Err(e);
            },
        };
        let output_settler = match self.get_output_settler(destination_chain_id) {
            Ok(output_settler) => output_settler,
            Err(e) => {
                return Err(e);
            },
        };
        let mut tx_data = input_settler.to_vec();
        append_bytes(&mut tx_data, order_bytes);
        Ok(
            OrderDraft {
                intent,
                order_bytes: copy_bytes(order_bytes),
                origin_chain_id,
                tx_data,
                input_chains: single_chain(origin_chain_id, &input_settler),
                output_chains: single_chain(destination_chain_id, &output_settler),
            },
        )
    }

    /// Decodes an intent from its ABI encoding, validates it, and drafts an order for it. What is
    /// left is to ask the origin chain for the identifier, and `finish_order`.
    pub fn prepare_order(&self, order_bytes: &[u8], now: u64) -> (draft: Result<
        OrderDraft,
        OrderError,
    >)
        requires
            origin_fits(bytes_outcome(order_bytes@)),
            checkable(self@, bytes_outcome(order_bytes@), now),
        ensures
            outcome(draft) == prepare_outcome(self@, order_bytes@, now),
    {
        match decode_intent_bytes(order_bytes) {
            Ok(sol) => self.draft_order(ShinobiIntent::from_sol(sol), order_bytes, now),
            Err(e) => Err(e),
        }
    }

    /// Drafts an order from the ABI encoding of an intent, or gives nothing where a chain
    /// identifier that is needed does not fit in 64 bits.
    pub fn try_prepare_order(&self, order_bytes: &[u8], now: u64) -> (draft: Option<
        Result<OrderDraft, OrderError>,
    >)
        ensures
            draft is Some <==> origin_fits(bytes_outcome(order_bytes@)) && checkable(
                self@,
                bytes_outcome(order_bytes@),
                now,
            ),
            draft matches Some(result) ==> outcome(result) == prepare_outcome(
                self@,
                order_bytes@,
                now,
            ),
    {
        match decode_intent_bytes(order_bytes) {
            Ok(sol) => {
                if sol.originChainId.try_to_u64().is_none() {
                    return None;
                }
                let intent = ShinobiIntent::from_sol(sol);
                if self.can_check(&intent, now) {
                    Some(self.prepare_order(order_bytes, now))
                } else {
                    None
                }
            },
            Err(e) => Some(Err(e)),
        }
    }

    /// Makes the order of a draft, once the origin chain has answered. An intent that came with
    /// the order bytes is kept in place of the decoded one.
    pub fn finish_order(
        &self,
        draft: OrderDraft,
        order_id: Result<Vec<u8>, String>,
        intent_data: Option<ShinobiIntent>,
        solver_address: &SolverAddress,
        now: u64,
    ) -> (order: Result<Order, OrderError>)
        ensures
            match order_id {
                Ok(id) => order matches Ok(o) && o@ == created_order(
                    draft@,
                    id@,
                    optional_intent(intent_data),
                    solver_address@,
                    now,
                ),
                Err(e) => order matches Err(r) && r.text() == "Failed to compute order ID: "@ + e@,
            },
    {
        let id = match order_id {
            Ok(id) => id,
            Err(e) => {
                return Err(
                    OrderError::ValidationFailed(
                        "Failed to compute order ID: ".to_owned().concat(e.as_str()),
                    ),
                );
            },
        };
        let intent = match intent_data {
            Some(given) => given,
            None => draft.intent,
        };
        let data = OrderData {
            intent: Some(intent),
            order_bytes: Some(hex_0x_text(draft.order_bytes.as_slice())),
        };
        Ok(
            Order {
                id: hex_0x_text(id.as_slice()),
                standard: "shinobi".to_owned(),
                created_at: now,
                updated_at: now,
                status: OrderStatus::Created,
                data,
                solver_address: copy_address(solver_address),
                quote_id: None,
                input_chains: draft.input_chains,
                output_chains: draft.output_chains,
                execution_params: None,
                prepare_tx_hash: None,
                fill_tx_hash: None,
                post_fill_tx_hash: None,
                pre_claim_tx_hash: None,
                claim_tx_hash: None,
                fill_proof: None,
            },
        )
    }
}

/// The schema of an order configuration. What there is to check is checked when the
/// implementation is made.
#[derive(Debug, Clone, Copy)]
pub struct ShinobiOrderConfigSchema;

impl ShinobiOrderConfigSchema {
    /// Accepts every configuration.
    pub fn validate(&self, _config: &toml::Value) -> (checked: Result<(), ValidationError>)
        ensures
            checked is Ok,
    {
        Ok(())
    }
}

impl ShinobiOrderImpl {
    /// The schema of the configuration.
    pub fn config_schema(&self) -> (schema: ShinobiOrderConfigSchema)
        ensures
            schema == ShinobiOrderConfigSchema,
    {
        ShinobiOrderConfigSchema
    }
}

/// The name under which the implementation is registered, and how one is made.
pub struct Registry;

impl Registry {
    /// The name of the implementation.
    pub fn name() -> (name: &'static str)
        ensures
            name@ == "shinobi"@,
    {
        "shinobi"
    }

    /// Makes an implementation from the two settler tables of a configuration.
    pub fn factory(
        input_table: &Vec<(String, String)>,
        output_table: &Vec<(String, String)>,
        networks: NetworksConfig,
        oracle_routes: OracleRoutes,
    ) -> (made: Result<ShinobiOrderImpl, OrderError>)
        ensures
            match made {
                Ok(order_impl) => {
                    &&& order_impl.wf()
                    &&& order_impl@.networks == networks@
                    &&& order_impl@.routes == oracle_routes@
                    &&& tables_settlers(entries_view(input_table@), entries_view(output_table@))
                        == Ok::<(Map<u64, Seq<u8>>, Map<u64, Seq<u8>>), Seq<char>>(
                        (order_impl@.inputs, order_impl@.outputs),
                    )
                },
                Err(e) => tables_settlers(entries_view(input_table@), entries_view(output_table@))
                    == Err::<(Map<u64, Seq<u8>>, Map<u64, Seq<u8>>), Seq<char>>(e.text()),
            },
    {
        ShinobiOrderImpl::new(input_table, output_table, networks, oracle_routes)
    }
}

// ---------------------------------------------------------------------------
// Laws
// ---------------------------------------------------------------------------
/// An order that was created reads back: its bytes give the intent that it was created for, and
/// its identifier the bytes that the origin chain answered.
pub proof fn law_created_order_reads_back(
    draft: DraftView,
    id: Seq<u8>,
    intent_data: Option<IntentView>,
    solver: Seq<u8>,
    now: u64,
)
    ensures
        ({
            let data = created_order(draft, id, intent_data, solver, now).data;
            &&& order_bytes_outcome(data) matches Ok(bytes)
            &&& bytes == draft.order_bytes
            &&& order_outcome(data) == bytes_outcome(draft.order_bytes)
        }),
        hex_bytes(without_0x(created_order(draft, id, intent_data, solver, now).id)) == Some(id),
{
    law_hex_0x_round_trip(draft.order_bytes);
    law_hex_0x_round_trip(id);
}

/// An order that was created can be filled as long as its two times lie ahead: the fill goes to
/// the settler that the order names for its destination, and calls `fill` with the intent.
pub proof fn law_created_order_can_be_filled(
    rules: OrderRules,
    intent: IntentView,
    order_bytes: Seq<u8>,
    drafted_at: u64,
    id: Seq<u8>,
    intent_data: Option<IntentView>,
    solver: Seq<u8>,
    created_at: u64,
    now: u64,
)
    requires
        decode_outcome(order_bytes) == decoded_as(intent),
        refusal(rules, intent, drafted_at) is None,
        low32(now) < intent.fill_deadline,
        low32(now) < intent.expires,
    ensures
        ({
            let draft = draft_of(rules, intent, order_bytes);
            let order = created_order(draft, id, intent_data, solver, created_at);
            &&& order_outcome(order.data) == decoded_as(intent)
            &&& fill_order_outcome(rules, order.data, now) matches Ok(tx)
            &&& tx.to == Some(order.output_chains[0].1)
            &&& tx.chain_id == order.output_chains[0].0
            &&& tx.data == fill_calldata(intent)
        }),
{
    let draft = draft_of(rules, intent, order_bytes);
    law_created_order_reads_back(draft, id, intent_data, solver, created_at);
}

/// The escrow of an order that was created can be claimed at any time: the claim goes to the
/// settler that the order names for its origin, carries no value, and sends the funds to the
/// solver.
pub proof fn law_created_order_can_be_claimed(
    rules: OrderRules,
    intent: IntentView,
    order_bytes: Seq<u8>,
    drafted_at: u64,
    id: Seq<u8>,
    intent_data: Option<IntentView>,
    solver: Seq<u8>,
    created_at: u64,
    filled_timestamp: u64,
)
    requires
        decode_outcome(order_bytes) == decoded_as(intent),
        refusal(rules, intent, drafted_at) is None,
    ensures
        ({
            let draft = draft_of(rules, intent, order_bytes);
            let order = created_order(draft, id, intent_data, solver, created_at);
            &&& order_outcome(order.data) == decoded_as(intent)
            &&& claim_order_outcome(rules, order, filled_timestamp) matches Ok(tx)
            &&& tx.to == Some(order.input_chains[0].1)
            &&& tx.chain_id == order.input_chains[0].0
            &&& tx.value == 0
            &&& tx.data == finalise_calldata(
                intent,
                seq![(low32(filled_timestamp), address_word(solver))],
                address_word(solver),
            )
        }),
{
    let draft = draft_of(rules, intent, order_bytes);
    law_created_order_reads_back(draft, id, intent_data, solver, created_at);
}

/// The bytes of an order decide alone what is read from it, and a leading `0x` makes no difference
/// to them: not to the intent, and not to what is said where there is none.
pub proof fn law_0x_prefix_is_optional(
    plain: OrderDataView,
    prefixed: OrderDataView,
    text: Seq<char>,
)
    requires
        !has_0x_prefix(text),
        plain.order_bytes == Some(text),
        prefixed.order_bytes == Some("0x"@ + text),
    ensures
        order_outcome(plain) == order_outcome(prefixed),
{
    reveal_strlit("0x");
    assert(("0x"@ + text).skip(2) =~= text);
}

/// Two readings of orders with the same bytes come to the same, whoever reads them and whatever
/// else the orders hold.
pub proof fn law_reading_depends_on_bytes_alone(
    reader: ShinobiOrderImpl,
    order: Order,
    other_reader: ShinobiOrderImpl,
    other_order: Order,
    read: Result<ShinobiIntent, OrderError>,
    other_read: Result<ShinobiIntent, OrderError>,
    text: Seq<char>,
)
    requires
        !has_0x_prefix(text),
        order@.data.order_bytes == Some(text),
        other_order@.data.order_bytes == Some(text) || other_order@.data.order_bytes == Some(
            "0x"@ + text,
        ),
        call_ensures(ShinobiOrderImpl::parse_intent, (&reader, &order), read),
        call_ensures(ShinobiOrderImpl::parse_intent, (&other_reader, &other_order), other_read),
    ensures
        outcome(read) == outcome(other_read),
{
    if other_order@.data.order_bytes == Some("0x"@ + text) {
        law_0x_prefix_is_optional(order@.data, other_order@.data, text);
    }
}

/// That an order holds no intent, for a reason.
pub open spec fn unreadable(why: Seq<char>) -> Result<IntentView, Seq<char>> {
    Err(why)
}

/// An order is read in three steps, each with its own words where it fails: the bytes have to be
/// there, to be hexadecimal, and to encode an intent.
pub proof fn law_unreadable_orders_say_why(data: OrderDataView)
    ensures
        data.order_bytes is None ==> order_outcome(data) == unreadable(
            "Missing order_bytes in data"@,
        ),
        data.order_bytes matches Some(text) && hex_bytes(without_0x(text)) is None
            ==> order_outcome(data) == unreadable(
            "Invalid order_bytes hex: "@ + hex_error_text(without_0x(data.order_bytes->0)),
        ),
        order_bytes_outcome(data) matches Ok(bytes) ==> (decode_outcome(bytes) matches Err(e)
            ==> order_outcome(data) == unreadable("Failed to decode ShinobiIntent: "@ + e)),
{
}

/// An intent whose oracles have no route between them is neither filled nor made an order, once
/// any routes are configured.
pub proof fn law_unroutable_intent_is_refused(
    rules: OrderRules,
    intent: IntentView,
    order_bytes: Seq<u8>,
    now: u64,
)
    requires
        rules.routes.len() > 0,
        !has_route(rules.routes, origin_oracle(intent), destination_oracle(intent)),
    ensures
        refusal(rules, intent, now) is Some,
        fill_outcome(rules, intent, now) is Err,
        draft_outcome(rules, intent, order_bytes, now) is Err,
{
}

/// A fill carries value exactly where the first output is native ETH: then its amount, else
/// nothing.
pub proof fn law_fill_value(
    rules: OrderRules,
    intent: IntentView,
    now: u64,
)
    requires
        fill_outcome(rules, intent, now) is Ok,
    ensures
        pays_native_eth(intent) ==> fill_outcome(rules, intent, now)->Ok_0.value
            == intent.outputs[0].amount,
        !pays_native_eth(intent) ==> fill_outcome(rules, intent, now)->Ok_0.value == 0,
{
}

/// Once an intent's fill deadline or its expiry has passed, it is neither filled nor made an
/// order.
pub proof fn law_late_intent_is_refused(
    rules: OrderRules,
    intent: IntentView,
    order_bytes: Seq<u8>,
    now: u64,
)
    requires
        intent.fill_deadline <= low32(now) || intent.expires <= low32(now),
    ensures
        fill_outcome(rules, intent, now) is Err,
        draft_outcome(rules, intent, order_bytes, now) is Err,
{
}

/// An intent that is accepted once is accepted again as long as its two times lie ahead.
pub proof fn law_acceptance_depends_on_time_alone(
    rules: OrderRules,
    intent: IntentView,
    earlier: u64,
    later: u64,
)
    requires
        refusal(rules, intent, earlier) is None,
    ensures
        refusal(rules, intent, later) is None <==> low32(later) < intent.fill_deadline
            && low32(later) < intent.expires,
{
}

} // verus!
