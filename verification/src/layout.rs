//! What stands in the way of decoding an intent: lengths that no decoder can take.
//!
//! An offset is a word that says how far behind its base something starts. A list or a byte string
//! starts with a word that says how long it is. A decoder follows the offsets of an encoded intent
//! from front to back and fails at the first that leads out of the data. Two kinds of length must
//! not reach it: one of a byte string so large that adding it to a position runs over, and one of
//! a list that the data cannot hold, but for which the decoder would first ask for a great deal of
//! memory.

use vstd::prelude::*;
use crate::bytes::be_value;
use crate::primitives::U256;

verus! {

/// How much memory, in bytes, a list may ask for that the data does not hold.
pub const LIST_MEMORY: u64 = 0x1_0000_0000;

/// How far one gets in following offsets and lengths.
pub enum Walk {
    /// To the end.
    Passes,
    /// To a place where the decoder itself fails.
    Fails,
    /// To a length that must not reach the decoder, and what is said of it.
    Stops(Seq<char>),
}

/// One walk, and another behind it where the first gets to the end.
pub open spec fn followed_by(first: Walk, second: Walk) -> Walk {
    if first is Passes {
        second
    } else {
        first
    }
}

/// The number in the word at a position.
pub open spec fn word_at(data: Seq<u8>, at: int) -> nat {
    be_value(data.subrange(at, at + 32))
}

/// Where an offset leads: the one in the word number `slot` behind `base`, if that word and its
/// target lie within the data.
pub open spec fn target(data: Seq<u8>, base: int, slot: int) -> Option<int> {
    let at = base + 32 * slot;
    if at + 32 <= data.len() && base + word_at(data, at) <= data.len() {
        Some(base + word_at(data, at))
    } else {
        None
    }
}

/// The length in the word at a position, if that word lies within the data and the machine can
/// hold its number.
pub open spec fn length_at(data: Seq<u8>, at: int) -> Option<nat> {
    if at + 32 <= data.len() && word_at(data, at) <= usize::MAX {
        Some(word_at(data, at))
    } else {
        None
    }
}

/// Whether a list of items asks for more memory than it may, and yet not for so much that the
/// decoder refuses it without asking.
pub open spec fn asks_too_much(count: nat, item: nat) -> bool {
    LIST_MEMORY < count * item <= isize::MAX
}

/// How much memory an output takes while it is decoded: six words, and two byte strings by their
/// place and length.
pub open spec fn output_item() -> nat {
    (192 + usize::BITS / 2) as nat
}

/// What is said of a byte string with an overlong length.
pub open spec fn overrun_text() -> Seq<char> {
    "ABI decoding failed: buffer overrun while deserializing"@
}

/// What is said of a list that asks for too much memory: what the decoder says where the memory is
/// not to be had. Where it is, the decoder fails later, for want of the items.
pub open spec fn no_memory_text() -> Seq<char> {
    "memory allocation failed because the memory allocator returned an error"@
}

/// Following the offset to a byte string.
pub open spec fn bytes_walk(data: Seq<u8>, base: int, slot: int) -> Walk {
    match target(data, base, slot) {
        None => Walk::Fails,
        Some(start) => match length_at(data, start) {
            None => Walk::Fails,
            Some(len) => if 32 + len > usize::MAX {
                Walk::Stops(overrun_text())
            } else if start + 32 + len > data.len() {
                Walk::Fails
            } else {
                Walk::Passes
            },
        },
    }
}

/// Following the offset to the list of inputs, which are pairs of words.
pub open spec fn inputs_walk(data: Seq<u8>, base: int, slot: int) -> Walk {
    match target(data, base, slot) {
        None => Walk::Fails,
        Some(start) => match length_at(data, start) {
            None => Walk::Fails,
            Some(count) => if start + 32 + 64 * count <= data.len() {
                Walk::Passes
            } else if asks_too_much(count, 64) {
                Walk::Stops(no_memory_text())
            } else {
                Walk::Fails
            },
        },
    }
}

/// Following the offset to an output, and from there to its call and its context.
pub open spec fn output_walk(data: Seq<u8>, list: int, i: int) -> Walk {
    match target(data, list, i) {
        None => Walk::Fails,
        Some(output) => followed_by(bytes_walk(data, output, 6), bytes_walk(data, output, 7)),
    }
}

/// The outputs of a list, from number `i` on.
pub open spec fn outputs_from(data: Seq<u8>, list: int, i: nat, count: nat) -> Walk
    decreases count - i,
{
    if i >= count {
        Walk::Passes
    } else {
        followed_by(output_walk(data, list, i as int), outputs_from(data, list, i + 1, count))
    }
}

/// Following the offset to the list of outputs, each of which has an offset of its own.
pub open spec fn outputs_walk(data: Seq<u8>, base: int, slot: int) -> Walk {
    match target(data, base, slot) {
        None => Walk::Fails,
        Some(start) => match length_at(data, start) {
            None => Walk::Fails,
            Some(count) => if start + 32 + 32 * count > data.len() && asks_too_much(
                count,
                output_item(),
            ) {
                Walk::Stops(no_memory_text())
            } else {
                outputs_from(data, start + 32, 0, count)
            },
        },
    }
}

/// Following the offsets of an encoded intent in their order: to the inputs, to the outputs and to
/// the refund call.
pub open spec fn intent_walk(data: Seq<u8>) -> Walk {
    match target(data, 0, 0) {
        None => Walk::Fails,
        Some(intent) => followed_by(
            inputs_walk(data, intent, 6),
            followed_by(outputs_walk(data, intent, 7), bytes_walk(data, intent, 9)),
        ),
    }
}

/// What stands in the way of decoding an intent, if something does.
pub open spec fn decoding_hazard(data: Seq<u8>) -> Option<Seq<char>> {
    match intent_walk(data) {
        Walk::Stops(why) => Some(why),
        _ => None,
    }
}

/// How far one got in following offsets and lengths.
enum Progress {
    Passes,
    Fails,
    Overrun,
    NoMemory,
}

impl Progress {
    spec fn walk(&self) -> Walk {
        match self {
            Progress::Passes => Walk::Passes,
            Progress::Fails => Walk::Fails,
            Progress::Overrun => Walk::Stops(overrun_text()),
            Progress::NoMemory => Walk::Stops(no_memory_text()),
        }
    }
}

/// The length in the word at a position.
fn read_length(data: &[u8], at: usize) -> (value: Option<usize>)
    ensures
        match value {
            Some(v) => length_at(data@, at as int) == Some(v as nat),
            None => length_at(data@, at as int) is None,
        },
{
    let total: usize = data.len();
    if total < 32 || at > total - 32 {
        return None;
    }
    let mut bytes = [0u8; 32];
    for i in 0..32
        invariant
            at + 32 <= total == data@.len(),
            forall|j: int| 0 <= j < i ==> bytes@[j] == data@[at + j],
    {
        bytes[i] = data[at + i];
    }
    assert(bytes@ =~= data@.subrange(at as int, at + 32));
    match U256::from_be_bytes(&bytes).try_to_u64() {
        Some(v) => if v <= usize::MAX as u64 {
            Some(v as usize)
        } else {
            None
        },
        None => None,
    }
}

/// Where an offset leads.
fn follow(data: &[u8], base: usize, slot: usize) -> (place: Option<usize>)
    requires
        base <= data@.len(),
    ensures
        match place {
            Some(p) => target(data@, base as int, slot as int) == Some(p as int) && p
                <= data@.len(),
            None => target(data@, base as int, slot as int) is None,
        },
{
    let room: usize = data.len() - base;
    if slot >= room / 32 {
        return None;
    }
    match read_length(data, base + 32 * slot) {
        Some(v) => if v <= room {
            Some(base + v)
        } else {
            None
        },
        None => None,
    }
}

/// Whether a list of items asks for more memory than it may.
fn check_memory(count: usize, item: u64) -> (too_much: bool)
    requires
        item <= 256,
    ensures
        too_much == asks_too_much(count as nat, item as nat),
{
    assert(0 <= count as int * item as int <= u64::MAX as int * 256) by (nonlinear_arith)
        requires
            0 <= count <= u64::MAX,
            0 <= item <= 256,
    ;
    let asked: u128 = count as u128 * item as u128;
    asked > LIST_MEMORY as u128 && asked <= isize::MAX as u128
}

/// Follows the offset to a byte string.
fn walk_bytes(data: &[u8], base: usize, slot: usize) -> (progress: Progress)
    requires
        base <= data@.len(),
    ensures
        progress.walk() == bytes_walk(data@, base as int, slot as int),
{
    let start: usize = match follow(data, base, slot) {
        Some(start) => start,
        None => {
            return Progress::Fails;
        },
    };
    match read_length(data, start) {
        Some(len) => if len > usize::MAX - 32 {
            Progress::Overrun
        } else if len > data.len() - start - 32 {
            Progress::Fails
        } else {
            Progress::Passes
        },
        None => Progress::Fails,
    }
}

/// Follows the offset to the list of inputs.
fn walk_inputs(data: &[u8], base: usize, slot: usize) -> (progress: Progress)
    requires
        base <= data@.len(),
    ensures
        progress.walk() == inputs_walk(data@, base as int, slot as int),
{
    let start: usize = match follow(data, base, slot) {
        Some(start) => start,
        None => {
            return Progress::Fails;
        },
    };
    match read_length(data, start) {
        Some(count) => if count <= (data.len() - start - 32) / 64 {
            Progress::Passes
        } else if check_memory(count, 64) {
            Progress::NoMemory
        } else {
            Progress::Fails
        },
        None => Progress::Fails,
    }
}

/// Follows the offset to an output.
fn walk_output(data: &[u8], list: usize, i: usize) -> (progress: Progress)
    requires
        list <= data@.len(),
    ensures
        progress.walk() == output_walk(data@, list as int, i as int),
{
    match follow(data, list, i) {
        Some(output) => match walk_bytes(data, output, 6) {
            Progress::Passes => walk_bytes(data, output, 7),
            other => other,
        },
        None => Progress::Fails,
    }
}

/// The walk through the outputs is settled by the first that does not pass.
proof fn lemma_outputs_settled(data: Seq<u8>, list: int, i: nat, j: nat, count: nat)
    requires
        i <= j <= count,
        forall|k: int| i <= k < j ==> #[trigger] output_walk(data, list, k) is Passes,
    ensures
        outputs_from(data, list, i, count) == outputs_from(data, list, j, count),
    decreases j - i,
{
    if i < j {
        assert(output_walk(data, list, i as int) is Passes);
        lemma_outputs_settled(data, list, i + 1, j, count);
    }
}

/// Follows the offset to the list of outputs.
fn walk_outputs(data: &[u8], base: usize, slot: usize) -> (progress: Progress)
    requires
        base <= data@.len(),
    ensures
        progress.walk() == outputs_walk(data@, base as int, slot as int),
{
    let start: usize = match follow(data, base, slot) {
        Some(start) => start,
        None => {
            return Progress::Fails;
        },
    };
    let count: usize = match read_length(data, start) {
        Some(count) => count,
        None => {
            return Progress::Fails;
        },
    };
    let total: usize = data.len();
    assert(start + 32 <= total);
    let list: usize = start + 32;
    let item: u64 = 192 + (usize::BITS / 2) as u64;
    if count > (total - list) / 32 && check_memory(count, item) {
        return Progress::NoMemory;
    }
    for i in 0..count
        invariant
            list <= data@.len(),
            list == start + 32,
            length_at(data@, start as int) == Some(count as nat),
            target(data@, base as int, slot as int) == Some(start as int),
            !(start + 32 + 32 * count > data@.len() && asks_too_much(
                count as nat,
                output_item(),
            )),
            forall|k: int| 0 <= k < i ==> #[trigger] output_walk(data@, list as int, k) is Passes,
    {
        match walk_output(data, list, i) {
            Progress::Passes => {},
            other => {
                proof {
                    lemma_outputs_settled(data@, list as int, 0, i as nat, count as nat);
                }
                return other;
            },
        }
    }
    proof {
        lemma_outputs_settled(data@, list as int, 0, count as nat, count as nat);
    }
    Progress::Passes
}

/// Follows the offsets of an encoded intent.
fn walk_intent(data: &[u8]) -> (progress: Progress)
    ensures
        progress.walk() == intent_walk(data@),
{
    match follow(data, 0, 0) {
        Some(intent) => match walk_inputs(data, intent, 6) {
            Progress::Passes => match walk_outputs(data, intent, 7) {
                Progress::Passes => walk_bytes(data, intent, 9),
                other => other,
            },
            other => other,
        },
        None => Progress::Fails,
    }
}

/// What stands in the way of decoding an intent, if something does.
pub fn find_hazard(data: &[u8]) -> (hazard: Option<String>)
    ensures
        match hazard {
            Some(why) => decoding_hazard(data@) == Some(why@),
            None => decoding_hazard(data@) is None,
        },
{
    match walk_intent(data) {
        Progress::Overrun => Some(
            "ABI decoding failed: buffer overrun while deserializing".to_owned(),
        ),
        Progress::NoMemory => Some(
            "memory allocation failed because the memory allocator returned an error".to_owned(),
        ),
        _ => None,
    }
}

} // verus!
