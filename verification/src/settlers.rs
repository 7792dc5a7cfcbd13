//! Settler contracts by chain, read from configuration.

use std::collections::HashMap;
use vstd::prelude::*;
use crate::primitives::Address;
use crate::text::{
    address_error_text, address_text, decimal, decimal_text, number_error_text, number_text,
    parse_evm_address, parse_number,
};
use crate::types::chain_ids;

verus! {

/// The settlers by chain, with their addresses as bytes.
pub open spec fn addresses_view(settlers: Map<u64, Address>) -> Map<u64, Seq<u8>> {
    settlers.map_values(|address: Address| address@)
}

// ---------------------------------------------------------------------------
// Tables with textual chain identifiers
// ---------------------------------------------------------------------------
/// The entries of a table as mathematical values.
pub open spec fn entries_view(entries: Seq<(String, String)>) -> Seq<(Seq<char>, Seq<char>)> {
    Seq::new(entries.len(), |i: int| (entries[i].0@, entries[i].1@))
}

/// What is said of a chain identifier that is not a number.
pub open spec fn chain_id_message(chain: Seq<char>) -> Seq<char> {
    "Invalid chain ID '"@ + chain + "': "@ + number_error_text(chain)
}

/// What is said of an address that cannot be read, after the words in `label`.
pub open spec fn address_message(label: Seq<char>, chain: u64, address: Seq<char>) -> Seq<char> {
    label + decimal(chain as nat) + ": "@ + address_error_text(address)
}

/// What the entries of a table give, one after another: the settlers, a later entry replacing an
/// earlier one for the same chain, or what is wrong with the first bad entry.
pub open spec fn table_settlers(label: Seq<char>, entries: Seq<(Seq<char>, Seq<char>)>) -> Result<
    Map<u64, Seq<u8>>,
    Seq<char>,
>
    decreases entries.len(),
{
    if entries.len() == 0 {
        Ok(Map::empty())
    } else {
        match table_settlers(label, entries.drop_last()) {
            Err(e) => Err(e),
            Ok(settlers) => match number_text(entries.last().0) {
                None => Err(chain_id_message(entries.last().0)),
                Some(chain) => match address_text(entries.last().1) {
                    None => Err(address_message(label, chain, entries.last().1)),
                    Some(address) => Ok(settlers.insert(chain, address)),
                },
            },
        }
    }
}

/// A bad entry decides what the whole table gives.
proof fn lemma_table_error_stays(
    label: Seq<char>,
    entries: Seq<(Seq<char>, Seq<char>)>,
    n: int,
)
    requires
        0 <= n <= entries.len(),
        table_settlers(label, entries.take(n)) is Err,
    ensures
        table_settlers(label, entries) == table_settlers(label, entries.take(n)),
    decreases entries.len(),
{
    if n < entries.len() {
        assert(entries.drop_last().take(n) =~= entries.take(n));
        lemma_table_error_stays(label, entries.drop_last(), n);
    } else {
        assert(entries.take(n) =~= entries);
    }
}

/// Message about an address that cannot be read.
fn address_message_text(label: &str, chain: u64, e: &String) -> (message: String)
    ensures
        message@ == label@ + decimal(chain as nat) + ": "@ + e@,
{
    let mut message = label.to_owned();
    message.append(decimal_text(chain).as_str());
    message.append(": ");
    message.append(e.as_str());
    message
}

/// Reads the entries of a table in their order, and stops at the first bad one.
pub fn parse_table(label: &str, entries: &Vec<(String, String)>) -> (settlers: Result<
    HashMap<u64, Address>,
    String,
>)
    ensures
        match settlers {
            Ok(map) => table_settlers(label@, entries_view(entries@)) == Ok::<
                Map<u64, Seq<u8>>,
                Seq<char>,
            >(addresses_view(map@)),
            Err(e) => table_settlers(label@, entries_view(entries@)) == Err::<
                Map<u64, Seq<u8>>,
                Seq<char>,
            >(e@),
        },
{
    let mut settlers: HashMap<u64, Address> = HashMap::new();
    let ghost all = entries_view(entries@);
    assert(addresses_view(settlers@) =~= Map::<u64, Seq<u8>>::empty());
    for i in 0..entries.len()
        invariant
            all == entries_view(entries@),
            table_settlers(label@, all.take(i as int)) == Ok::<Map<u64, Seq<u8>>, Seq<char>>(
                addresses_view(settlers@),
            ),
    {
        assert(all.take(i + 1).drop_last() =~= all.take(i as int));
        assert(all.take(i + 1).last() == (entries@[i as int].0@, entries@[i as int].1@));
        let chain_text = entries[i].0.as_str();
        let address = entries[i].1.as_str();
        let chain: u64 = match parse_number(chain_text) {
            Ok(chain) => chain,
            Err(e) => {
                let mut message = "Invalid chain ID '".to_owned();
                message.append(chain_text);
                message.append("': ");
                message.append(e.as_str());
                proof {
                    lemma_table_error_stays(label@, all, i + 1);
                }
                return Err(message);
            },
        };
        match parse_evm_address(address) {
            Ok(address) => {
                let ghost before = settlers@;
                settlers.insert(chain, address);
                assert(addresses_view(settlers@) =~= addresses_view(before).insert(
                    chain,
                    address@,
                ));
            },
            Err(e) => {
                proof {
                    lemma_table_error_stays(label@, all, i + 1);
                }
                return Err(address_message_text(label, chain, &e));
            },
        }
    }
    assert(all.take(entries@.len() as int) =~= all);
    Ok(settlers)
}

// ---------------------------------------------------------------------------
// Maps with numeric chain identifiers
// ---------------------------------------------------------------------------
/// Whether every address of a configured map can be read.
pub open spec fn map_readable(config: Map<u64, String>) -> bool {
    forall|chain: u64| #[trigger]
        config.contains_key(chain) ==> address_text(config[chain]@) is Some
}

/// The settlers of a configured map.
pub open spec fn map_settlers(config: Map<u64, String>) -> Map<u64, Seq<u8>> {
    config.map_values(|address: String| address_text(address@)->0)
}

/// Whether a message is about an address of the map that cannot be read.
pub open spec fn map_message(
    label: Seq<char>,
    config: Map<u64, String>,
    message: Seq<char>,
) -> bool {
    exists|chain: u64| #[trigger]
        config.contains_key(chain) && address_text(config[chain]@) is None && message
            == address_message(label, chain, config[chain]@)
}

/// Reads the addresses of a configured map. Where several cannot be read, any of them may be the
/// one reported.
pub fn parse_map(label: &str, config: &HashMap<u64, String>) -> (settlers: Result<
    HashMap<u64, Address>,
    String,
>)
    ensures
        match settlers {
            Ok(map) => map_readable(config@) && addresses_view(map@) == map_settlers(config@),
            Err(e) => !map_readable(config@) && map_message(label@, config@, e@),
        },
{
    let ids = chain_ids(config);
    let mut settlers: HashMap<u64, Address> = HashMap::new();
    for i in 0..ids.len()
        invariant
            ids@.no_duplicates(),
            ids@.to_set() == config@.dom(),
            forall|chain: u64| #[trigger]
                settlers@.contains_key(chain) <==> ids@.take(i as int).contains(chain),
            forall|chain: u64| #[trigger]
                settlers@.contains_key(chain) ==> config@.contains_key(chain) && address_text(
                    config@[chain]@,
                ) == Some(settlers@[chain]@),
    {
        let chain: u64 = ids[i];
        assert(ids@.to_set().contains(chain));
        let ghost before = settlers@;
        assert(ids@.take(i + 1) =~= ids@.take(i as int).push(chain));
        match config.get(&chain) {
            Some(text) => match parse_evm_address(text.as_str()) {
                Ok(address) => {
                    settlers.insert(chain, address);
                    assert forall|k: u64| #[trigger]
                        settlers@.contains_key(k) <==> ids@.take(i + 1).contains(k) by {
                        if ids@.take(i as int).contains(k) {
                            let j = choose|j: int|
                                0 <= j < i && #[trigger] ids@.take(i as int)[j] == k;
                            assert(ids@.take(i + 1)[j] == k);
                        }
                        assert(ids@.take(i + 1)[i as int] == chain);
                    }
                },
                Err(e) => {
                    return Err(address_message_text(label, chain, &e));
                },
            },
            None => {
                assert(false);
            },
        }
    }
    proof {
        assert(ids@.take(ids@.len() as int) =~= ids@);
        assert forall|chain: u64| #[trigger] config@.contains_key(chain) implies address_text(
            config@[chain]@,
        ) is Some && settlers@.contains_key(chain) by {
            assert(ids@.to_set().contains(chain));
            assert(ids@.contains(chain));
            assert(settlers@.contains_key(chain));
        }
        assert(addresses_view(settlers@) =~= map_settlers(config@));
    }
    Ok(settlers)
}

} // verus!
