//! What configured settlers are read as: every entry counts, the last one for its chain.

use std::collections::HashMap;
use vstd::prelude::*;
use crate::discovery::{
    DiscoveryError, DiscoverySetup, Registry as DiscoveryRegistry, ShinobiDiscovery,
    ShinobiDiscoveryConfig,
};
use crate::order::{OrderError, Registry, ShinobiOrderConfig, ShinobiOrderImpl};
use crate::primitives::Address;
use crate::settlers::{
    address_message, addresses_view, entries_view, map_message, map_readable, map_settlers,
    parse_map, parse_table, table_settlers,
};
use crate::text::{address_error_text, address_text, decimal, number_error_text, number_text};
use crate::types::{NetworksConfig, oracles_view, OracleRoutes, OracleView};

verus! {

// ---------------------------------------------------------------------------
// Tables
// ---------------------------------------------------------------------------
/// Whether these are the strings of a table.
pub open spec fn texts_of(
    texts: Seq<(Seq<char>, Seq<char>)>,
    table: Seq<(String, String)>,
) -> bool {
    &&& texts.len() == table.len()
    &&& forall|i: int|
        0 <= i < table.len() ==> #[trigger] texts[i] == (table[i].0@, table[i].1@)
}

/// Whether an entry is a number and an address.
pub open spec fn entry_reads(entry: (Seq<char>, Seq<char>)) -> bool {
    number_text(entry.0) is Some && address_text(entry.1) is Some
}

/// Whether no later entry is for the same chain.
pub open spec fn last_for_its_chain(texts: Seq<(Seq<char>, Seq<char>)>, i: int) -> bool {
    forall|j: int|
        i < j < texts.len() ==> number_text((#[trigger] texts[j]).0) != number_text(texts[i].0)
}

/// Whether settlers are what a table says: every entry reads, the last entry for a chain gives its
/// settler, and there is no chain without an entry.
pub open spec fn settlers_of(
    texts: Seq<(Seq<char>, Seq<char>)>,
    settlers: Map<u64, Seq<u8>>,
) -> bool {
    &&& forall|i: int| 0 <= i < texts.len() ==> entry_reads(#[trigger] texts[i])
    &&& forall|i: int|
        0 <= i < texts.len() && last_for_its_chain(texts, i) ==> {
            let chain = number_text((#[trigger] texts[i]).0)->0;
            &&& settlers.contains_key(chain)
            &&& address_text(texts[i].1) == Some(settlers[chain])
        }
    &&& forall|chain: u64| #[trigger]
        settlers.contains_key(chain) ==> exists|i: int|
            0 <= i < texts.len() && number_text((#[trigger] texts[i]).0) == Some(chain)
}

/// Whether a message is about the first entry that does not read.
pub open spec fn entry_refused(
    label: Seq<char>,
    texts: Seq<(Seq<char>, Seq<char>)>,
    i: int,
    message: Seq<char>,
) -> bool {
    &&& 0 <= i < texts.len()
    &&& forall|j: int| 0 <= j < i ==> entry_reads(#[trigger] texts[j])
    &&& match number_text(texts[i].0) {
        None => message == "Invalid chain ID '"@ + texts[i].0 + "': "@ + number_error_text(
            texts[i].0,
        ),
        Some(chain) => address_text(texts[i].1) is None && message == label + decimal(
            chain as nat,
        ) + ": "@ + address_error_text(texts[i].1),
    }
}

/// What the entries give, taken one after another.
proof fn lemma_table(label: Seq<char>, texts: Seq<(Seq<char>, Seq<char>)>)
    ensures
        match table_settlers(label, texts) {
            Ok(settlers) => settlers_of(texts, settlers),
            Err(message) => exists|i: int| #[trigger] entry_refused(label, texts, i, message),
        },
    decreases texts.len(),
{
    if texts.len() > 0 {
        let front = texts.drop_last();
        let n = texts.len() - 1;
        lemma_table(label, front);
        match table_settlers(label, front) {
            Err(message) => {
                let i = choose|i: int| #[trigger] entry_refused(label, front, i, message);
                assert forall|j: int| 0 <= j < i implies entry_reads(#[trigger] texts[j]) by {
                    assert(entry_reads(front[j]));
                }
                assert(entry_refused(label, texts, i, message));
            },
            Ok(before) => {
                assert forall|j: int| 0 <= j < n implies entry_reads(#[trigger] texts[j]) by {
                    assert(entry_reads(front[j]));
                }
                match table_settlers(label, texts) {
                    Err(message) => {
                        assert(entry_refused(label, texts, n, message));
                    },
                    Ok(settlers) => {
                        let last = number_text(texts[n].0)->0;
                        assert forall|i: int|
                            0 <= i < texts.len() && last_for_its_chain(texts, i) implies {
                            let chain = number_text((#[trigger] texts[i]).0)->0;
                            &&& settlers.contains_key(chain)
                            &&& address_text(texts[i].1) == Some(settlers[chain])
                        } by {
                            if i < n {
                                assert(number_text(texts[n].0) != number_text(texts[i].0));
                                assert forall|j: int| i < j < front.len() implies number_text(
                                    (#[trigger] front[j]).0,
                                ) != number_text(front[i].0) by {
                                    assert(texts[j] == front[j]);
                                }
                                assert(last_for_its_chain(front, i));
                                assert(front[i] == texts[i]);
                            }
                        }
                        assert forall|chain: u64| #[trigger]
                            settlers.contains_key(chain) implies exists|i: int|
                            0 <= i < texts.len() && number_text((#[trigger] texts[i]).0) == Some(
                                chain,
                            ) by {
                            if chain != last {
                                assert(before.contains_key(chain));
                                let i = choose|i: int|
                                    0 <= i < front.len() && number_text((#[trigger] front[i]).0)
                                        == Some(chain);
                                assert(texts[i] == front[i]);
                            } else {
                                assert(number_text(texts[n].0) == Some(chain));
                            }
                        }
                    },
                }
            },
        }
    }
}

/// Where every entry reads and there is one, there is a settler.
proof fn lemma_some_settler(texts: Seq<(Seq<char>, Seq<char>)>, settlers: Map<u64, Seq<u8>>)
    requires
        settlers_of(texts, settlers),
    ensures
        settlers.dom() == Set::<u64>::empty() <==> texts.len() == 0,
{
    if texts.len() > 0 {
        let n = texts.len() - 1;
        assert(last_for_its_chain(texts, n));
        let chain = number_text(texts[n].0)->0;
        assert(settlers.contains_key(chain));
        assert(settlers.dom().contains(chain));
    } else {
        assert(settlers.dom() =~= Set::<u64>::empty());
    }
}

/// The strings of a table are its entries.
proof fn lemma_texts(texts: Seq<(Seq<char>, Seq<char>)>, table: Seq<(String, String)>)
    requires
        texts_of(texts, table),
    ensures
        entries_view(table) == texts,
{
    assert(entries_view(table) =~= texts);
}

/// A table is read entry by entry: the last entry for a chain gives its settler, every chain has
/// an entry, and the first entry that does not read is reported.
pub proof fn law_table_is_read_entry_by_entry(
    label: &str,
    table: Vec<(String, String)>,
    settlers: Result<HashMap<u64, Address>, String>,
    texts: Seq<(Seq<char>, Seq<char>)>,
)
    requires
        call_ensures(parse_table, (label, &table), settlers),
        texts_of(texts, table@),
    ensures
        match settlers {
            Ok(map) => {
                &&& forall|i: int| 0 <= i < texts.len() ==> entry_reads(#[trigger] texts[i])
                &&& forall|i: int|
                    0 <= i < texts.len() && last_for_its_chain(texts, i) ==> {
                        let chain = number_text((#[trigger] texts[i]).0)->0;
                        &&& map@.contains_key(chain)
                        &&& address_text(texts[i].1) == Some(map@[chain].bytes@)
                    }
                &&& forall|chain: u64| #[trigger]
                    map@.contains_key(chain) ==> exists|i: int|
                        0 <= i < texts.len() && number_text((#[trigger] texts[i]).0) == Some(chain)
            },
            Err(e) => exists|i: int| #[trigger] entry_refused(label@, texts, i, e@),
        },
{
    lemma_texts(texts, table@);
    lemma_table(label@, texts);
    if let Ok(map) = settlers {
        let view = addresses_view(map@);
        assert forall|chain: u64| #[trigger] map@.contains_key(chain) implies exists|i: int|
            0 <= i < texts.len() && number_text((#[trigger] texts[i]).0) == Some(chain) by {
            assert(view.contains_key(chain));
        }
        assert forall|i: int| 0 <= i < texts.len() && last_for_its_chain(texts, i) implies {
            let chain = number_text((#[trigger] texts[i]).0)->0;
            &&& map@.contains_key(chain)
            &&& address_text(texts[i].1) == Some(map@[chain].bytes@)
        } by {
            let chain = number_text(texts[i].0)->0;
            assert(view.contains_key(chain));
            assert(view[chain] == map@[chain]@);
        }
    }
}

// ---------------------------------------------------------------------------
// Maps
// ---------------------------------------------------------------------------
/// Whether settlers are what a configured map says, chain by chain.
pub open spec fn settlers_of_map(config: Map<u64, String>, settlers: Map<u64, Seq<u8>>) -> bool {
    forall|chain: u64|
        #![trigger config.contains_key(chain)]
        #![trigger settlers.contains_key(chain)]
        {
            &&& config.contains_key(chain) <==> settlers.contains_key(chain)
            &&& config.contains_key(chain) ==> address_text(config[chain]@) == Some(
                settlers[chain],
            )
        }
}

/// Whether a message is about an address of a configured map that does not read.
pub open spec fn address_refused(
    label: Seq<char>,
    config: Map<u64, String>,
    chain: u64,
    message: Seq<char>,
) -> bool {
    &&& config.contains_key(chain)
    &&& address_text(config[chain]@) is None
    &&& message == label + decimal(chain as nat) + ": "@ + address_error_text(config[chain]@)
}

/// Whether every address of a configured map reads.
pub open spec fn addresses_read(config: Map<u64, String>) -> bool {
    forall|chain: u64| #[trigger]
        config.contains_key(chain) ==> address_text(config[chain]@) is Some
}

/// What a configured map gives.
proof fn lemma_map(config: Map<u64, String>)
    ensures
        addresses_read(config) <==> map_readable(config),
        addresses_read(config) ==> settlers_of_map(config, map_settlers(config)),
        map_settlers(config).dom() == config.dom(),
{
    assert(map_settlers(config).dom() =~= config.dom());
}

/// What is said of a configured map.
proof fn lemma_map_message(label: Seq<char>, config: Map<u64, String>, message: Seq<char>)
    requires
        map_message(label, config, message),
    ensures
        exists|chain: u64| #[trigger] address_refused(label, config, chain, message),
{
    let chain = choose|chain: u64| #[trigger]
        config.contains_key(chain) && address_text(config[chain]@) is None && message
            == address_message(label, chain, config[chain]@);
    assert(address_refused(label, config, chain, message));
}

/// A configured map is read chain by chain, and an address that does not read is reported.
pub proof fn law_map_is_read_chain_by_chain(
    label: &str,
    config: HashMap<u64, String>,
    settlers: Result<HashMap<u64, Address>, String>,
)
    requires
        call_ensures(parse_map, (label, &config), settlers),
    ensures
        match settlers {
            Ok(map) => forall|chain: u64|
                #![trigger config@.contains_key(chain)]
                #![trigger map@.contains_key(chain)]
                {
                    &&& config@.contains_key(chain) <==> map@.contains_key(chain)
                    &&& config@.contains_key(chain) ==> address_text(config@[chain]@) == Some(
                        map@[chain].bytes@,
                    )
                },
            Err(e) => exists|chain: u64| #[trigger] address_refused(
                label@,
                config@,
                chain,
                e@,
            ),
        },
{
    lemma_map(config@);
    match settlers {
        Ok(map) => {
            let view = addresses_view(map@);
            assert forall|chain: u64|
                #![trigger config@.contains_key(chain)]
                #![trigger map@.contains_key(chain)]
                {
                    &&& config@.contains_key(chain) <==> map@.contains_key(chain)
                    &&& config@.contains_key(chain) ==> address_text(config@[chain]@) == Some(
                        map@[chain].bytes@,
                    )
                } by {
                assert(view.contains_key(chain) == map@.contains_key(chain));
                assert(map_settlers(config@).contains_key(chain) == config@.contains_key(chain));
                if map@.contains_key(chain) {
                    assert(view[chain] == map@[chain]@);
                }
            }
        },
        Err(e) => {
            lemma_map_message(label@, config@, e@);
        },
    }
}

// ---------------------------------------------------------------------------
// Order implementations
// ---------------------------------------------------------------------------
/// Whether routes are those of a configuration, oracle by oracle.
pub open spec fn routes_are(
    view: Seq<(OracleView, Seq<OracleView>)>,
    routes: OracleRoutes,
) -> bool {
    &&& view.len() == routes.supported_routes@.len()
    &&& forall|i: int|
        0 <= i < view.len() ==> {
            let (from, to) = routes.supported_routes@[i];
            &&& (#[trigger] view[i]).0.chain_id == from.chain_id
            &&& view[i].0.oracle == from.oracle.0@
            &&& view[i].1.len() == to@.len()
            &&& forall|j: int|
                0 <= j < to@.len() ==> (#[trigger] view[i].1[j]).chain_id == to@[j].chain_id
                    && view[i].1[j].oracle == to@[j].oracle.0@
        }
}

/// An order implementation goes by the tables it is made from, and there has to be a settler on
/// either side. What is wrong with the input table is reported first.
pub proof fn law_order_implementation_goes_by_its_tables(
    input_table: Vec<(String, String)>,
    output_table: Vec<(String, String)>,
    networks: NetworksConfig,
    routes: OracleRoutes,
    made: Result<ShinobiOrderImpl, OrderError>,
    ins: Seq<(Seq<char>, Seq<char>)>,
    outs: Seq<(Seq<char>, Seq<char>)>,
)
    requires
        call_ensures(
            ShinobiOrderImpl::new,
            (&input_table, &output_table, networks, routes),
            made,
        ) || call_ensures(
            Registry::factory,
            (&input_table, &output_table, networks, routes),
            made,
        ),
        texts_of(ins, input_table@),
        texts_of(outs, output_table@),
    ensures
        match made {
            Ok(order_impl) => {
                &&& ins.len() > 0 && settlers_of(ins, order_impl@.inputs)
                &&& outs.len() > 0 && settlers_of(outs, order_impl@.outputs)
                &&& order_impl@.networks == networks@
                &&& routes_are(order_impl@.routes, routes)
            },
            Err(OrderError::ValidationFailed(message)) => {
                let ins_read = forall|i: int| 0 <= i < ins.len() ==> entry_reads(#[trigger] ins[i]);
                let outs_read = forall|i: int|
                    0 <= i < outs.len() ==> entry_reads(#[trigger] outs[i]);
                if !ins_read {
                    exists|i: int| #[trigger]
                        entry_refused(
                            "Invalid input settler address for chain "@,
                            ins,
                            i,
                            message@,
                        )
                } else if !outs_read {
                    exists|i: int| #[trigger]
                        entry_refused(
                            "Invalid output settler address for chain "@,
                            outs,
                            i,
                            message@,
                        )
                } else if ins.len() == 0 {
                    message@ == "At least one input settler must be configured"@
                } else {
                    outs.len() == 0 && message@ == "At least one output settler must be configured"@
                }
            },
        },
{
    let in_label = "Invalid input settler address for chain "@;
    let out_label = "Invalid output settler address for chain "@;
    lemma_texts(ins, input_table@);
    lemma_texts(outs, output_table@);
    lemma_table(in_label, ins);
    lemma_table(out_label, outs);
    match table_settlers(in_label, ins) {
        Err(message) => {
            let i = choose|i: int| #[trigger] entry_refused(in_label, ins, i, message);
            assert(!entry_reads(ins[i]));
        },
        Ok(inputs) => {
            lemma_some_settler(ins, inputs);
            match table_settlers(out_label, outs) {
                Err(message) => {
                    let i = choose|i: int| #[trigger] entry_refused(out_label, outs, i, message);
                    assert(!entry_reads(outs[i]));
                },
                Ok(outputs) => {
                    lemma_some_settler(outs, outputs);
                },
            }
        },
    }
    if let Ok(order_impl) = made {
        lemma_routes(order_impl@.routes, routes);
    }
}

/// The routes of a configuration, oracle by oracle.
proof fn lemma_routes(view: Seq<(OracleView, Seq<OracleView>)>, routes: OracleRoutes)
    requires
        view == routes@,
    ensures
        routes_are(view, routes),
{
    assert forall|i: int| 0 <= i < view.len() implies {
        let (from, to) = routes.supported_routes@[i];
        &&& (#[trigger] view[i]).0.chain_id == from.chain_id
        &&& view[i].0.oracle == from.oracle.0@
        &&& view[i].1.len() == to@.len()
        &&& forall|j: int|
            0 <= j < to@.len() ==> (#[trigger] view[i].1[j]).chain_id == to@[j].chain_id
                && view[i].1[j].oracle == to@[j].oracle.0@
    } by {
        let (from, to) = routes.supported_routes@[i];
        assert(view[i] == (from@, oracles_view(to@)));
        assert forall|j: int| 0 <= j < to@.len() implies (#[trigger] view[i].1[j]).chain_id
            == to@[j].chain_id && view[i].1[j].oracle == to@[j].oracle.0@ by {
            assert(view[i].1[j] == to@[j]@);
        }
    }
}

/// An order implementation goes by the configuration it is made from, and there has to be a
/// settler on either side.
pub proof fn law_order_implementation_goes_by_its_configuration(
    config: ShinobiOrderConfig,
    networks: NetworksConfig,
    routes: OracleRoutes,
    made: Result<ShinobiOrderImpl, OrderError>,
)
    requires
        call_ensures(ShinobiOrderImpl::from_config, (&config, networks, routes), made),
    ensures
        match made {
            Ok(order_impl) => {
                &&& config.input_settlers@.dom() != Set::<u64>::empty()
                &&& config.output_settlers@.dom() != Set::<u64>::empty()
                &&& settlers_of_map(config.input_settlers@, order_impl@.inputs)
                &&& settlers_of_map(config.output_settlers@, order_impl@.outputs)
                &&& order_impl@.networks == networks@
                &&& routes_are(order_impl@.routes, routes)
            },
            Err(OrderError::ValidationFailed(message)) => if !addresses_read(
                config.input_settlers@,
            ) {
                exists|chain: u64| #[trigger]
                    address_refused(
                        "Invalid input settler address for chain "@,
                        config.input_settlers@,
                        chain,
                        message@,
                    )
            } else if !addresses_read(config.output_settlers@) {
                exists|chain: u64| #[trigger]
                    address_refused(
                        "Invalid output settler address for chain "@,
                        config.output_settlers@,
                        chain,
                        message@,
                    )
            } else if config.input_settlers@.dom() == Set::<u64>::empty() {
                message@ == "At least one input settler must be configured"@
            } else {
                config.output_settlers@.dom() == Set::<u64>::empty() && message@
                    == "At least one output settler must be configured"@
            },
        },
{
    let in_label = "Invalid input settler address for chain "@;
    let out_label = "Invalid output settler address for chain "@;
    lemma_map(config.input_settlers@);
    lemma_map(config.output_settlers@);
    match made {
        Ok(order_impl) => {
            lemma_routes(order_impl@.routes, routes);
        },
        Err(e) => {
            if !addresses_read(config.input_settlers@) {
                lemma_map_message(in_label, config.input_settlers@, e.text());
            } else if !addresses_read(config.output_settlers@) {
                lemma_map_message(out_label, config.output_settlers@, e.text());
            }
        },
    }
}

/// The settler of a chain is the one that the implementation goes by, and there is an answer for
/// every chain.
pub proof fn law_settlers_are_found(
    order_impl: ShinobiOrderImpl,
    chain: u64,
    input: Result<Address, OrderError>,
    output: Result<Address, OrderError>,
)
    requires
        call_ensures(ShinobiOrderImpl::get_input_settler, (&order_impl, chain), input),
        call_ensures(ShinobiOrderImpl::get_output_settler, (&order_impl, chain), output),
    ensures
        match input {
            Ok(a) => order_impl@.inputs.contains_key(chain) && a.bytes@
                == order_impl@.inputs[chain],
            Err(OrderError::ValidationFailed(message)) => !order_impl@.inputs.contains_key(chain)
                && message@ == "No input settler for chain "@ + decimal(chain as nat),
        },
        match output {
            Ok(a) => order_impl@.outputs.contains_key(chain) && a.bytes@
                == order_impl@.outputs[chain],
            Err(OrderError::ValidationFailed(message)) => !order_impl@.outputs.contains_key(chain)
                && message@ == "No output settler for chain "@ + decimal(chain as nat),
        },
{
}

// ---------------------------------------------------------------------------
// Discovery
// ---------------------------------------------------------------------------
/// Discovery is set up for the settlers it is given, each on its chain, at the interval and with
/// the lock type given, and with nothing connected yet.
pub proof fn law_discovery_goes_by_its_settlers(
    settlers: HashMap<u64, Address>,
    networks: NetworksConfig,
    interval: Option<u64>,
    lock_type: String,
    setup: Result<DiscoverySetup, DiscoveryError>,
)
    requires
        call_ensures(ShinobiDiscovery::new, (settlers, networks, interval, lock_type), setup),
    ensures
        match setup {
            Ok(s) => {
                &&& settlers@.dom() != Set::<u64>::empty()
                &&& s.done() == 0
                &&& s.state().input_settlers.dom() == settlers@.dom()
                &&& forall|chain: u64| #[trigger]
                    settlers@.contains_key(chain) ==> s.state().input_settlers[chain]
                        == settlers@[chain].bytes@
                &&& s.state().network_ids.no_duplicates()
                &&& forall|chain: u64| #[trigger]
                    settlers@.contains_key(chain) <==> s.state().network_ids.contains(chain)
                &&& s.state().networks == networks@
                &&& s.state().lock_type == lock_type@
                &&& s.state().polling_interval_secs == (match interval {
                    Some(seconds) => seconds,
                    None => 3,
                })
                &&& s.state().providers.dom() == Set::<u64>::empty()
                &&& s.monitoring().last_blocks.dom() == Set::<u64>::empty()
                &&& !s.monitoring().is_monitoring
            },
            Err(e) => {
                &&& settlers@.dom() == Set::<u64>::empty()
                &&& e matches DiscoveryError::ValidationError(message)
                &&& message@ == "At least one input settler must be configured"@
            },
        },
{
    if let Ok(s) = setup {
        let ids = s.state().network_ids;
        assert(s.state().input_settlers.dom() =~= settlers@.dom());
        assert(ids.take(0).to_set() =~= Set::<u64>::empty());
        assert forall|chain: u64| #[trigger] settlers@.contains_key(chain) <==> ids.contains(
            chain,
        ) by {
            assert(ids.to_set().contains(chain) == settlers@.dom().contains(chain));
        }
    }
}

/// Discovery is set up from a configuration as from the settlers that its addresses read as.
pub proof fn law_discovery_goes_by_its_configuration(
    config: ShinobiDiscoveryConfig,
    networks: NetworksConfig,
    setup: Result<DiscoverySetup, DiscoveryError>,
)
    requires
        call_ensures(DiscoveryRegistry::factory, (&config, networks), setup),
    ensures
        match setup {
            Ok(s) => {
                &&& config.input_settlers@.dom() != Set::<u64>::empty()
                &&& s.done() == 0
                &&& settlers_of_map(config.input_settlers@, s.state().input_settlers)
                &&& s.state().network_ids.no_duplicates()
                &&& forall|chain: u64| #[trigger]
                    config.input_settlers@.contains_key(chain) <==> s.state().network_ids.contains(
                        chain,
                    )
                &&& s.state().networks == networks@
                &&& s.state().lock_type == config.lock_type@
                &&& s.state().polling_interval_secs == (match config.polling_interval_secs {
                    Some(seconds) => seconds,
                    None => 3,
                })
                &&& s.state().providers.dom() == Set::<u64>::empty()
                &&& s.monitoring().last_blocks.dom() == Set::<u64>::empty()
                &&& !s.monitoring().is_monitoring
            },
            Err(e) => {
                &&& e matches DiscoveryError::ValidationError(message)
                &&& if !addresses_read(config.input_settlers@) {
                    exists|chain: u64| #[trigger]
                        address_refused(
                            "Invalid settler address for chain "@,
                            config.input_settlers@,
                            chain,
                            message@,
                        )
                } else {
                    config.input_settlers@.dom() == Set::<u64>::empty() && message@
                        == "At least one input settler must be configured"@
                }
            },
        },
{
    let label = "Invalid settler address for chain "@;
    lemma_map(config.input_settlers@);
    match setup {
        Ok(s) => {
            let ids = s.state().network_ids;
            assert(ids.take(0).to_set() =~= Set::<u64>::empty());
            assert forall|chain: u64| #[trigger]
                config.input_settlers@.contains_key(chain) <==> ids.contains(chain) by {
                assert(ids.to_set().contains(chain) == s.state().input_settlers.dom().contains(
                    chain,
                ));
            }
        },
        Err(e) => {
            if !addresses_read(config.input_settlers@) {
                if let DiscoveryError::ValidationError(message) = e {
                    lemma_map_message(label, config.input_settlers@, message@);
                }
            }
        },
    }
}

} // verus!
