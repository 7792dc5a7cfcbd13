//! What goes into an encoding and what comes out of one, field by field.

use vstd::prelude::*;
use vstd::utf8::encode_utf8;
use crate::abi::{
    abi_decoded_words, abi_encoded_finalise, abi_encoded_words, intent_of, keccak256_of,
    words_clean, words_of, words_sized, WordsView,
};
use crate::bytes::{be_bytes, be_value, lemma_be_bytes_len, zeros};
use crate::eip7683::{
    copy_outputs, MandateOutput as RustMandateOutput, MandateView, outputs_view,
};
use crate::intent::{copy_inputs, inputs_view, ShinobiIntent};
use crate::laws::values::lemma_zero_digits;
use crate::layout::{
    asks_too_much, bytes_walk, decoding_hazard, find_hazard, inputs_walk, length_at, output_item,
    output_walk, outputs_from, outputs_walk, target, Walk,
};
use crate::primitives::{address_word, U256, word};
use crate::settler::{
    FILL_SIGNATURE, FINALISE_SIGNATURE, IShinobiInputSettler, IShinobiOutputSettler, MandateOutput,
    OPEN_SIGNATURE, OpenEvent, outputs_from_sol, outputs_to_sol, ShinobiIntentSol,
    sol_outputs_view, solve_params_view, SolveParams,
};
use crate::text::hex_text;

verus! {

// ---------------------------------------------------------------------------
// Fields
// ---------------------------------------------------------------------------
/// Whether a word is an address behind twelve zeros.
pub open spec fn ends_in_address(bytes32: Seq<u8>, address: [u8; 20]) -> bool {
    &&& bytes32.len() == 32
    &&& forall|i: int| 0 <= i < 12 ==> #[trigger] bytes32[i] == 0
    &&& forall|i: int| 0 <= i < 20 ==> bytes32[12 + i] == #[trigger] address@[i]
}

/// Whether inputs are pairs of these numbers.
pub open spec fn inputs_are(view: Seq<(nat, nat)>, inputs: Seq<[U256; 2]>) -> bool {
    &&& view.len() == inputs.len()
    &&& forall|i: int|
        0 <= i < inputs.len() ==> #[trigger] view[i] == (inputs[i]@[0]@, inputs[i]@[1]@)
}

/// Whether an output has these fields.
pub open spec fn output_is(view: MandateView, output: RustMandateOutput) -> bool {
    &&& view.oracle == output.oracle@
    &&& view.settler == output.settler@
    &&& view.chain_id == output.chain_id@
    &&& view.token == output.token@
    &&& view.amount == output.amount@
    &&& view.recipient == output.recipient@
    &&& view.call == output.call@
    &&& view.context == output.context@
}

/// Whether an output has the fields of a Solidity form.
pub open spec fn sol_output_is(view: MandateView, output: MandateOutput) -> bool {
    &&& view.oracle == output.oracle@
    &&& view.settler == output.settler@
    &&& view.chain_id == output.chainId@
    &&& view.token == output.token@
    &&& view.amount == output.amount@
    &&& view.recipient == output.recipient@
    &&& view.call == output.call@
    &&& view.context == output.context@
}

/// Whether words hold the fields of an intent.
pub open spec fn words_hold(words: WordsView, intent: ShinobiIntent) -> bool {
    &&& ends_in_address(words.user, intent.user.bytes)
    &&& words.nonce == intent.nonce@
    &&& words.origin_chain_id == intent.origin_chain_id
    &&& words.expires == intent.expires
    &&& words.fill_deadline == intent.fill_deadline
    &&& ends_in_address(words.fill_oracle, intent.fill_oracle.bytes)
    &&& inputs_are(words.inputs, intent.inputs@)
    &&& words.outputs.len() == intent.outputs@.len()
    &&& forall|i: int|
        0 <= i < intent.outputs@.len() ==> output_is(
            #[trigger] words.outputs[i],
            intent.outputs@[i],
        )
    &&& ends_in_address(words.intent_oracle, intent.intent_oracle.bytes)
    &&& words.refund_calldata == intent.refund_calldata@
}

/// Whether words hold the fields of a Solidity form.
pub open spec fn words_hold_sol(words: WordsView, sol: ShinobiIntentSol) -> bool {
    &&& ends_in_address(words.user, sol.user.bytes)
    &&& words.nonce == sol.nonce@
    &&& words.origin_chain_id == sol.originChainId@
    &&& words.expires == sol.expires
    &&& words.fill_deadline == sol.fillDeadline
    &&& ends_in_address(words.fill_oracle, sol.fillOracle.bytes)
    &&& inputs_are(words.inputs, sol.inputs@)
    &&& words.outputs.len() == sol.outputs@.len()
    &&& forall|i: int|
        0 <= i < sol.outputs@.len() ==> sol_output_is(#[trigger] words.outputs[i], sol.outputs@[i])
    &&& ends_in_address(words.intent_oracle, sol.intentOracle.bytes)
    &&& words.refund_calldata == sol.refundCalldata@
}

/// Whether an output and a Solidity form have the same fields.
pub open spec fn same_output(output: RustMandateOutput, sol: MandateOutput) -> bool {
    &&& output.oracle@ == sol.oracle@
    &&& output.settler@ == sol.settler@
    &&& output.chain_id@ == sol.chainId@
    &&& output.token@ == sol.token@
    &&& output.amount@ == sol.amount@
    &&& output.recipient@ == sol.recipient@
    &&& output.call@ == sol.call@
    &&& output.context@ == sol.context@
}

/// Whether an intent and a Solidity form have the same fields.
pub open spec fn same_intent(intent: ShinobiIntent, sol: ShinobiIntentSol) -> bool {
    &&& intent.user.bytes@ == sol.user.bytes@
    &&& intent.nonce@ == sol.nonce@
    &&& intent.origin_chain_id == sol.originChainId@
    &&& intent.expires == sol.expires
    &&& intent.fill_deadline == sol.fillDeadline
    &&& intent.fill_oracle.bytes@ == sol.fillOracle.bytes@
    &&& intent.inputs@.len() == sol.inputs@.len()
    &&& forall|i: int|
        0 <= i < sol.inputs@.len() ==> (#[trigger] intent.inputs@[i])@[0]@ == sol.inputs@[i]@[0]@
            && intent.inputs@[i]@[1]@ == sol.inputs@[i]@[1]@
    &&& intent.outputs@.len() == sol.outputs@.len()
    &&& forall|i: int|
        0 <= i < sol.outputs@.len() ==> same_output(#[trigger] intent.outputs@[i], sol.outputs@[i])
    &&& intent.intent_oracle.bytes@ == sol.intentOracle.bytes@
    &&& intent.refund_calldata@ == sol.refundCalldata@
}

/// Intents are the same as mathematical values exactly if they are field by field.
pub proof fn lemma_same_intent(intent: ShinobiIntent, sol: ShinobiIntentSol)
    ensures
        same_intent(intent, sol) <==> intent@ == sol@,
{
    if same_intent(intent, sol) {
        assert(inputs_view(intent.inputs@) =~= inputs_view(sol.inputs@));
        assert(outputs_view(intent.outputs@) =~= sol_outputs_view(sol.outputs@)) by {
            assert forall|i: int| 0 <= i < sol.outputs@.len() implies #[trigger] outputs_view(
                intent.outputs@,
            )[i] == sol_outputs_view(sol.outputs@)[i] by {
                assert(same_output(intent.outputs@[i], sol.outputs@[i]));
            }
        }
    }
    if intent@ == sol@ {
        assert(intent@.inputs.len() == sol@.inputs.len());
        assert(intent@.outputs.len() == sol@.outputs.len());
        assert forall|i: int| 0 <= i < sol.inputs@.len() implies (
            #[trigger] intent.inputs@[i])@[0]@ == sol.inputs@[i]@[0]@ && intent.inputs@[i]@[1]@
            == sol.inputs@[i]@[1]@ by {
            assert(intent@.inputs[i] == sol@.inputs[i]);
            assert(intent@.inputs[i] == (intent.inputs@[i]@[0]@, intent.inputs@[i]@[1]@));
            assert(sol@.inputs[i] == (sol.inputs@[i]@[0]@, sol.inputs@[i]@[1]@));
        }
        assert forall|i: int| 0 <= i < sol.outputs@.len() implies same_output(
            #[trigger] intent.outputs@[i],
            sol.outputs@[i],
        ) by {
            assert(intent@.outputs[i] == sol@.outputs[i]);
        }
    }
}

/// A word that ends in an address is the word of it.
pub proof fn lemma_ends_in_address(bytes32: Seq<u8>, address: [u8; 20])
    requires
        ends_in_address(bytes32, address),
    ensures
        bytes32 == address_word(address@),
{
    assert forall|i: int| 0 <= i < 32 implies #[trigger] bytes32[i] == address_word(
        address@,
    )[i] by {
        if i >= 12 {
            assert(bytes32[12 + (i - 12)] == address@[i - 12]);
        }
    }
    assert(bytes32 =~= address_word(address@));
}

/// The words of an intent are those that hold its fields.
pub proof fn lemma_words_hold(words: WordsView, intent: ShinobiIntent)
    requires
        words_hold(words, intent),
    ensures
        words == words_of(intent@),
{
    lemma_ends_in_address(words.user, intent.user.bytes);
    lemma_ends_in_address(words.fill_oracle, intent.fill_oracle.bytes);
    lemma_ends_in_address(words.intent_oracle, intent.intent_oracle.bytes);
    assert(words.inputs =~= intent@.inputs);
    assert forall|i: int| 0 <= i < words.outputs.len() implies #[trigger] words.outputs[i]
        == intent@.outputs[i] by {
        assert(output_is(words.outputs[i], intent.outputs@[i]));
    }
    assert(words.outputs =~= intent@.outputs);
    assert(words =~= words_of(intent@));
}

/// The words of a Solidity form are those that hold its fields.
pub proof fn lemma_words_hold_sol(words: WordsView, sol: ShinobiIntentSol)
    requires
        words_hold_sol(words, sol),
    ensures
        words == words_of(sol@),
{
    lemma_ends_in_address(words.user, sol.user.bytes);
    lemma_ends_in_address(words.fill_oracle, sol.fillOracle.bytes);
    lemma_ends_in_address(words.intent_oracle, sol.intentOracle.bytes);
    assert(words.inputs =~= sol@.inputs);
    assert forall|i: int| 0 <= i < words.outputs.len() implies #[trigger] words.outputs[i]
        == sol@.outputs[i] by {
        assert(sol_output_is(words.outputs[i], sol.outputs@[i]));
    }
    assert(words.outputs =~= sol@.outputs);
    assert(words =~= words_of(sol@));
}

// ---------------------------------------------------------------------------
// Conversions
// ---------------------------------------------------------------------------
/// The Solidity form of an intent has all its fields, and so has the intent made of one, and
/// copies.
pub proof fn law_conversion_keeps_every_field(
    intent: ShinobiIntent,
    sol: ShinobiIntentSol,
    other: ShinobiIntentSol,
    back: ShinobiIntent,
)
    requires
        call_ensures(<ShinobiIntentSol as From<ShinobiIntent>>::from, (intent,), sol),
        other.originChainId@ <= u64::MAX,
        call_ensures(ShinobiIntent::from_sol, (other,), back),
    ensures
        same_intent(intent, sol),
        same_intent(back, other),
{
    lemma_same_intent(intent, sol);
    lemma_same_intent(back, other);
}

/// The Solidity form of an output has all its fields, and so has the output made of one.
pub proof fn law_output_conversion_keeps_every_field(
    output: RustMandateOutput,
    sol: MandateOutput,
    other: MandateOutput,
    back: RustMandateOutput,
)
    requires
        call_ensures(<MandateOutput as From<RustMandateOutput>>::from, (output,), sol),
        call_ensures(<RustMandateOutput as From<MandateOutput>>::from, (other,), back),
    ensures
        same_output(output, sol),
        same_output(back, other),
{
}

/// A copy has all fields of what it was made from.
pub proof fn law_copies_keep_every_field(
    intent: ShinobiIntent,
    copy: ShinobiIntent,
    sol: ShinobiIntentSol,
    sol_copy: ShinobiIntentSol,
)
    requires
        call_ensures(<ShinobiIntent as Clone>::clone, (&intent,), copy),
        call_ensures(<ShinobiIntentSol as Clone>::clone, (&sol,), sol_copy),
        same_intent(intent, sol),
    ensures
        same_intent(copy, sol),
        same_intent(intent, sol_copy),
{
    lemma_same_intent(intent, sol);
    lemma_same_intent(copy, sol);
    lemma_same_intent(intent, sol_copy);
}

/// Lists of outputs are copied and converted output by output, in their order.
pub proof fn law_lists_of_outputs_keep_every_field(
    outputs: Vec<RustMandateOutput>,
    copy: Vec<RustMandateOutput>,
    sol: Vec<MandateOutput>,
    back: Vec<RustMandateOutput>,
    i: int,
)
    requires
        call_ensures(copy_outputs, (&outputs,), copy),
        call_ensures(outputs_to_sol, (&outputs,), sol),
        call_ensures(outputs_from_sol, (&sol,), back),
        0 <= i < outputs@.len(),
    ensures
        copy@.len() == outputs@.len(),
        sol@.len() == outputs@.len(),
        back@.len() == outputs@.len(),
        same_output(outputs@[i], sol@[i]),
        same_output(copy@[i], sol@[i]),
        same_output(back@[i], sol@[i]),
{
    assert(outputs_view(copy@).len() == outputs_view(outputs@).len());
    assert(sol_outputs_view(sol@).len() == outputs_view(outputs@).len());
    assert(outputs_view(back@).len() == sol_outputs_view(sol@).len());
    assert(outputs_view(copy@)[i] == outputs_view(outputs@)[i]);
    assert(sol_outputs_view(sol@)[i] == outputs_view(outputs@)[i]);
    assert(outputs_view(back@)[i] == sol_outputs_view(sol@)[i]);
}

/// Copies of a single output and of inputs are the same as what they were made from.
pub proof fn law_single_copies(
    output: RustMandateOutput,
    copy: RustMandateOutput,
    sol: MandateOutput,
    sol_copy: MandateOutput,
    inputs: Vec<[U256; 2]>,
    inputs_copy: Vec<[U256; 2]>,
)
    requires
        same_output(output, sol),
        call_ensures(<RustMandateOutput as Clone>::clone, (&output,), copy),
        call_ensures(<MandateOutput as Clone>::clone, (&sol,), sol_copy),
        call_ensures(copy_inputs, (&inputs,), inputs_copy),
    ensures
        same_output(copy, sol),
        same_output(output, sol_copy),
        inputs_copy@ == inputs@,
{
}

// ---------------------------------------------------------------------------
// Encoding
// ---------------------------------------------------------------------------
/// An intent is encoded by the words that hold its fields.
pub proof fn law_intent_is_encoded_by_its_words(
    sol: ShinobiIntentSol,
    encoded: Vec<u8>,
    words: WordsView,
)
    requires
        call_ensures(ShinobiIntentSol::abi_encode, (&sol,), encoded),
        words_hold_sol(words, sol),
    ensures
        encoded@ == abi_encoded_words(words),
{
    lemma_words_hold_sol(words, sol);
}

/// A fill calls `fill` with the words of the intent.
pub proof fn law_fill_call_hands_over_the_intent(
    sol: ShinobiIntentSol,
    data: Vec<u8>,
    words: WordsView,
)
    requires
        call_ensures(IShinobiOutputSettler::fill_call, (&sol,), data),
        words_hold_sol(words, sol),
    ensures
        data@ == keccak256_of(encode_utf8(FILL_SIGNATURE@))@.subrange(0, 4) + abi_encoded_words(
            words,
        ),
{
    lemma_words_hold_sol(words, sol);
}

/// A claim calls `finalise` with the words of the intent, the solves in their order and the
/// destination that was given.
pub proof fn law_finalise_call_hands_over_its_arguments(
    sol: ShinobiIntentSol,
    params: Vec<SolveParams>,
    destination: [u8; 32],
    data: Vec<u8>,
    words: WordsView,
    solves: Seq<(u32, Seq<u8>)>,
)
    requires
        call_ensures(IShinobiInputSettler::finalise_call, (&sol, &params, destination), data),
        words_hold_sol(words, sol),
        solves.len() == params@.len(),
        forall|i: int|
            0 <= i < solves.len() ==> #[trigger] solves[i] == (
                params@[i].timestamp,
                params@[i].solver@,
            ),
    ensures
        data@ == keccak256_of(encode_utf8(FINALISE_SIGNATURE@))@.subrange(0, 4)
            + abi_encoded_finalise(words, solves, destination@),
{
    lemma_words_hold_sol(words, sol);
    assert(solves =~= solve_params_view(params@));
}

// ---------------------------------------------------------------------------
// Decoding
// ---------------------------------------------------------------------------
/// Whether the words for addresses and times hold nothing else.
pub open spec fn words_are_clean(words: WordsView) -> bool {
    &&& forall|i: int| 0 <= i < 12 ==> #[trigger] words.user[i] == 0
    &&& forall|i: int| 0 <= i < 12 ==> #[trigger] words.fill_oracle[i] == 0
    &&& forall|i: int| 0 <= i < 12 ==> #[trigger] words.intent_oracle[i] == 0
    &&& words.expires <= u32::MAX
    &&& words.fill_deadline <= u32::MAX
}

/// Words are clean exactly if their first bytes are zeros.
proof fn lemma_clean(words: WordsView)
    requires
        words_sized(words),
    ensures
        words_are_clean(words) <==> words_clean(words),
{
    lemma_zeros(words.user);
    lemma_zeros(words.fill_oracle);
    lemma_zeros(words.intent_oracle);
}

/// A word starts with zeros exactly if each of its first bytes is zero.
proof fn lemma_zeros(bytes32: Seq<u8>)
    requires
        bytes32.len() == 32,
    ensures
        bytes32.subrange(0, 12) == zeros(12) <==> forall|i: int|
            0 <= i < 12 ==> #[trigger] bytes32[i] == 0,
{
    let front = bytes32.subrange(0, 12);
    if forall|i: int| 0 <= i < 12 ==> #[trigger] bytes32[i] == 0 {
        assert(front =~= zeros(12));
    }
    if front == zeros(12) {
        assert forall|i: int| 0 <= i < 12 implies #[trigger] bytes32[i] == 0 by {
            assert(front[i] == zeros(12)[i]);
        }
    }
}

/// Words hold the fields of the Solidity form that they stand for.
proof fn lemma_read_from(sol: ShinobiIntentSol, words: WordsView)
    requires
        words_sized(words),
        words_clean(words),
        sol@ == intent_of(words),
    ensures
        words_hold_sol(words, sol),
{
    lemma_clean(words);
    assert forall|i: int| 0 <= i < sol.outputs@.len() implies sol_output_is(
        #[trigger] words.outputs[i],
        sol.outputs@[i],
    ) by {
        assert(sol@.outputs[i] == words.outputs[i]);
    }
    assert forall|i: int| 0 <= i < sol.inputs@.len() implies #[trigger] words.inputs[i] == (
        sol.inputs@[i]@[0]@,
        sol.inputs@[i]@[1]@,
    ) by {
        assert(sol@.inputs[i] == words.inputs[i]);
    }
    assert forall|i: int| 0 <= i < 20 implies words.user[12 + i]
        == #[trigger] sol.user.bytes@[i] by {
        assert(sol@.user[i] == words.user.subrange(12, 32)[i]);
    }
    assert forall|i: int| 0 <= i < 20 implies words.fill_oracle[12 + i]
        == #[trigger] sol.fillOracle.bytes@[i] by {
        assert(sol@.fill_oracle[i] == words.fill_oracle.subrange(12, 32)[i]);
    }
    assert forall|i: int| 0 <= i < 20 implies words.intent_oracle[12 + i]
        == #[trigger] sol.intentOracle.bytes@[i] by {
        assert(sol@.intent_oracle[i] == words.intent_oracle.subrange(12, 32)[i]);
    }
}

/// Bytes are decoded into the words that they encode, as long as these hold what they are for. A
/// length that must not reach the decoder, what the decoder finds wrong and a word that holds more
/// are each reported.
pub proof fn law_intent_is_decoded_from_its_words(
    data: &[u8],
    decoded: Result<ShinobiIntentSol, String>,
)
    requires
        call_ensures(ShinobiIntentSol::abi_decode, (data,), decoded),
    ensures
        match decoding_hazard(data@) {
            Some(why) => decoded matches Err(e) && e@ == why,
            None => match abi_decoded_words(data@, usize::MAX as nat) {
                Err(why) => decoded matches Err(e) && e@ == why,
                Ok(words) => match decoded {
                    Ok(sol) => words_are_clean(words) && words_hold_sol(words, sol),
                    Err(e) => !words_are_clean(words) && e@
                        == "type check failed for \"ShinobiIntentSol\" with data: "@ + hex_text(
                        data@,
                    ),
                },
            },
        },
{
    if decoding_hazard(data@) is None {
        if let Ok(words) = abi_decoded_words(data@, usize::MAX as nat) {
            lemma_clean(words);
            if let Ok(sol) = decoded {
                lemma_read_from(sol, words);
            }
        }
    }
}

/// The first topic of an `Open` event is the hash of its signature.
pub proof fn law_open_topic(hash: [u8; 32])
    requires
        call_ensures(IShinobiInputSettler::open_signature_hash, (), hash),
    ensures
        hash@ == keccak256_of(encode_utf8(OPEN_SIGNATURE@))@,
{
}

/// A log is an `Open` event if it has two topics or more, of which the first is the hash of the
/// event's signature. Its second topic is the order identifier, and its data is read as an intent
/// by itself would be. A word that holds more than it is for is shown in a tuple of its own.
pub proof fn law_open_event_is_read(
    topics: Vec<[u8; 32]>,
    data: &[u8],
    opened: Result<OpenEvent, String>,
    checked: Result<[u8; 32], String>,
    offset: Seq<u8>,
)
    requires
        call_ensures(IShinobiInputSettler::decode_open, (&topics, data), opened),
        call_ensures(IShinobiInputSettler::check_open_topics, (&topics,), checked),
        offset.len() == 32,
        forall|i: int| 0 <= i < 31 ==> #[trigger] offset[i] == 0,
        offset[31] == 32,
    ensures
        ({
            let hash = keccak256_of(encode_utf8(OPEN_SIGNATURE@))@;
            if topics@.len() < 2 {
                &&& opened matches Err(e)
                &&& e@ == "topic list length mismatch"@
                &&& checked matches Err(same)
                &&& same@ == e@
            } else if topics@[0]@ != hash {
                &&& opened matches Err(e)
                &&& e@ == "invalid signature hash for event \""@ + OPEN_SIGNATURE@ + "\": got "@
                    + ("0x"@ + hex_text(topics@[0]@)) + ", expected "@ + ("0x"@ + hex_text(hash))
                &&& checked matches Err(same)
                &&& same@ == e@
            } else {
                &&& checked matches Ok(order_id)
                &&& order_id@ == topics@[1]@
                &&& match decoding_hazard(data@) {
                    Some(why) => opened matches Err(e) && e@ == why,
                    None => match abi_decoded_words(data@, usize::MAX as nat) {
                        Err(why) => opened matches Err(e) && e@ == why,
                        Ok(words) => match opened {
                            Ok(open) => {
                                &&& open.order_id@ == topics@[1]@
                                &&& words_are_clean(words)
                                &&& words_hold_sol(words, open.intent)
                            },
                            Err(e) => {
                                &&& !words_are_clean(words)
                                &&& e@
                                    == "type check failed for \"(ShinobiIntentSol)\" with data: "@
                                    + hex_text(offset + data@)
                            },
                        },
                    },
                }
            }
        }),
{
    lemma_offset_word(offset);
    let hash = keccak256_of(encode_utf8(OPEN_SIGNATURE@))@;
    if topics@.len() >= 2 && topics@[0]@ == hash && decoding_hazard(data@) is None {
        if let Ok(words) = abi_decoded_words(data@, usize::MAX as nat) {
            lemma_clean(words);
            if let Ok(open) = opened {
                lemma_read_from(open.intent, words);
            }
        }
    }
}

/// The word of thirty-two.
proof fn lemma_offset_word(offset: Seq<u8>)
    requires
        offset.len() == 32,
        forall|i: int| 0 <= i < 31 ==> #[trigger] offset[i] == 0,
        offset[31] == 32,
    ensures
        word(32) == offset,
{
    assert(be_bytes(32, 32) == be_bytes(0, 31).push(32));
    assert forall|i: int| 0 <= i < 31 implies #[trigger] be_bytes(0, 31)[i] == 0 by {
        lemma_zero_digits(31, i);
    }
    lemma_be_bytes_len(0, 31);
    assert(word(32) =~= offset);
}

// ---------------------------------------------------------------------------
// Hazards
// ---------------------------------------------------------------------------
/// Whether a word is a length that the data cannot hold, and a great one.
pub open spec fn overlong(data: Seq<u8>, at: int) -> bool {
    &&& 0 <= at
    &&& at + 32 <= data.len()
    &&& be_value(data.subrange(at, at + 32)) > 0x100_0000
    &&& at + 32 + 64 * be_value(data.subrange(at, at + 32)) > data.len()
}

/// Only data that holds a great length, and not what it is the length of, is kept from the decoder.
pub proof fn law_only_great_lengths_are_refused(data: &[u8], hazard: Option<String>)
    requires
        call_ensures(find_hazard, (data,), hazard),
        hazard is Some,
    ensures
        exists|at: int| #[trigger] overlong(data@, at),
{
    assert(data@.len() == vstd::slice::spec_slice_len(data));
    let intent = target(data@, 0, 0)->0;
    if inputs_walk(data@, intent, 6) is Stops {
        lemma_inputs_hazard(data@, intent, 6);
    } else if outputs_walk(data@, intent, 7) is Stops {
        lemma_outputs_hazard(data@, intent, 7);
    } else {
        lemma_bytes_hazard(data@, intent, 9);
    }
}

/// The inputs stop a walk only by a great length.
proof fn lemma_inputs_hazard(data: Seq<u8>, base: int, slot: int)
    requires
        base >= 0,
        slot >= 0,
        inputs_walk(data, base, slot) is Stops,
    ensures
        exists|at: int| #[trigger] overlong(data, at),
{
    let start = target(data, base, slot)->0;
    let count = length_at(data, start)->0;
    assert(count == be_value(data.subrange(start, start + 32)));
    assert(overlong(data, start));
}

/// The outputs stop a walk only by a great length.
proof fn lemma_outputs_hazard(data: Seq<u8>, base: int, slot: int)
    requires
        base >= 0,
        slot >= 0,
        data.len() <= usize::MAX,
        outputs_walk(data, base, slot) is Stops,
    ensures
        exists|at: int| #[trigger] overlong(data, at),
{
    let start = target(data, base, slot)->0;
    let count = length_at(data, start)->0;
    let item = output_item();
    if start + 32 + 32 * count > data.len() && asks_too_much(count, item) {
        assert(count * item <= count * 256) by (nonlinear_arith)
            requires
                item <= 256,
        ;
        assert(count == be_value(data.subrange(start, start + 32)));
        assert(overlong(data, start));
    } else {
        lemma_output_hazard(data, start + 32, 0, count);
    }
}

/// A byte string stops a walk only by a great length.
proof fn lemma_bytes_hazard(data: Seq<u8>, base: int, slot: int)
    requires
        base >= 0,
        slot >= 0,
        data.len() <= usize::MAX,
        bytes_walk(data, base, slot) is Stops,
    ensures
        exists|at: int| #[trigger] overlong(data, at),
{
    let start = target(data, base, slot)->0;
    assert(overlong(data, start));
}

/// Each output stops a walk only by a great length.
proof fn lemma_output_hazard(data: Seq<u8>, list: int, i: nat, count: nat)
    requires
        list >= 0,
        data.len() <= usize::MAX,
        outputs_from(data, list, i, count) is Stops,
    ensures
        exists|at: int| #[trigger] overlong(data, at),
    decreases count - i,
{
    if output_walk(data, list, i as int) is Passes {
        lemma_output_hazard(data, list, i + 1, count);
    } else {
        let output = target(data, list, i as int)->0;
        if bytes_walk(data, output, 6) is Passes {
            lemma_bytes_hazard(data, output, 7);
        } else {
            lemma_bytes_hazard(data, output, 6);
        }
    }
}

/// The number in the word at a position.
pub open spec fn number_at(data: Seq<u8>, at: int) -> nat {
    be_value(data.subrange(at, at + 32))
}

/// Whether the offset in a word leads to a place where another word lies.
pub open spec fn leads_to(data: Seq<u8>, base: int, slot: int, place: int) -> bool {
    &&& 0 <= base
    &&& base + 32 * slot + 32 <= data.len()
    &&& place == base + number_at(data, base + 32 * slot)
    &&& place + 32 <= data.len()
}

/// Whether the offset in a word leads to a byte string that lies within the data.
pub open spec fn string_fits(data: Seq<u8>, base: int, slot: int) -> bool {
    let place = base + number_at(data, base + 32 * slot);
    &&& leads_to(data, base, slot, place)
    &&& place + 32 + number_at(data, place) <= data.len()
}

/// Whether the offset in a word leads to a byte string whose length runs over when it is added to
/// a position.
pub open spec fn string_runs_over(data: Seq<u8>, base: int, slot: int) -> bool {
    let place = base + number_at(data, base + 32 * slot);
    &&& leads_to(data, base, slot, place)
    &&& usize::MAX - 32 < number_at(data, place) <= usize::MAX
}

/// Whether an output of a list lies within the data, with its call and its context.
pub open spec fn output_fits(data: Seq<u8>, list: int, i: int) -> bool {
    let output = list + number_at(data, list + 32 * i);
    &&& list + 32 * i + 32 <= data.len()
    &&& output <= data.len()
    &&& string_fits(data, output, 6)
    &&& string_fits(data, output, 7)
}

/// A length that fits lets a walk pass, and one that runs over stops it.
proof fn lemma_string(data: Seq<u8>, base: int, slot: int)
    requires
        data.len() <= usize::MAX,
    ensures
        string_fits(data, base, slot) ==> bytes_walk(data, base, slot) is Passes,
        string_runs_over(data, base, slot) ==> bytes_walk(data, base, slot) == Walk::Stops(
            "ABI decoding failed: buffer overrun while deserializing"@,
        ),
{
}

/// Outputs that fit let a walk pass.
proof fn lemma_outputs_pass(data: Seq<u8>, list: int, i: nat, n: nat, count: nat)
    requires
        data.len() <= usize::MAX,
        i <= n <= count,
        forall|k: int| i <= k < n ==> #[trigger] output_fits(data, list, k),
    ensures
        outputs_from(data, list, i, count) == outputs_from(data, list, n, count),
    decreases n - i,
{
    if i < n {
        assert(output_fits(data, list, i as int));
        let output = list + number_at(data, list + 32 * i);
        lemma_string(data, output, 6);
        lemma_string(data, output, 7);
        assert(output_walk(data, list, i as int) is Passes);
        lemma_outputs_pass(data, list, i + 1, n, count);
    }
}

/// A refund call, or the call or context of an output, whose length would run over never reaches
/// the decoder, where everything before it lies within the data.
pub proof fn law_overrunning_strings_are_refused(
    data: &[u8],
    hazard: Option<String>,
    intent: int,
    inputs: int,
    outputs: int,
    n: nat,
)
    requires
        call_ensures(find_hazard, (data,), hazard),
        leads_to(data@, 0, 0, intent),
        leads_to(data@, intent, 6, inputs),
        inputs + 32 + 64 * number_at(data@, inputs) <= data@.len(),
        leads_to(data@, intent, 7, outputs),
        outputs + 32 + 32 * number_at(data@, outputs) <= data@.len(),
        n <= number_at(data@, outputs),
        forall|k: int| 0 <= k < n ==> #[trigger] output_fits(data@, outputs + 32, k),
        if n == number_at(data@, outputs) {
            string_runs_over(data@, intent, 9)
        } else {
            let output = outputs + 32 + number_at(data@, outputs + 32 + 32 * n);
            &&& output <= data@.len()
            &&& string_runs_over(data@, output, 6) || (string_fits(data@, output, 6)
                && string_runs_over(data@, output, 7))
        },
    ensures
        hazard matches Some(why) && why@
            == "ABI decoding failed: buffer overrun while deserializing"@,
{
    assert(data@.len() == vstd::slice::spec_slice_len(data));
    let count = number_at(data@, outputs);
    let list = outputs + 32;
    assert(target(data@, 0, 0) == Some(intent));
    assert(target(data@, intent, 6) == Some(inputs));
    assert(inputs_walk(data@, intent, 6) is Passes);
    assert(target(data@, intent, 7) == Some(outputs));
    assert(length_at(data@, outputs) == Some(count));
    lemma_outputs_pass(data@, list, 0, n, count);
    if n == count {
        lemma_string(data@, intent, 9);
        assert(outputs_from(data@, list, 0, count) is Passes);
    } else {
        let output = list + number_at(data@, list + 32 * n);
        lemma_string(data@, output, 6);
        lemma_string(data@, output, 7);
        assert(target(data@, list, n as int) == Some(output));
        assert(output_walk(data@, list, n as int) is Stops);
        assert(outputs_from(data@, list, n, count) == output_walk(data@, list, n as int));
    }
}

/// A list that the data cannot hold, for which a decoder would set aside more than four gigabytes
/// that a machine may have, never reaches it.
pub proof fn law_greedy_lists_are_refused(
    data: &[u8],
    hazard: Option<String>,
    intent: int,
    inputs: int,
    outputs: int,
)
    requires
        call_ensures(find_hazard, (data,), hazard),
        leads_to(data@, 0, 0, intent),
        leads_to(data@, intent, 6, inputs),
        number_at(data@, inputs) <= usize::MAX,
        if inputs + 32 + 64 * number_at(data@, inputs) <= data@.len() {
            &&& leads_to(data@, intent, 7, outputs)
            &&& number_at(data@, outputs) <= usize::MAX
            &&& outputs + 32 + 32 * number_at(data@, outputs) > data@.len()
            &&& 0x1_0000_0000 < number_at(data@, outputs) * (192 + usize::BITS / 2) <= isize::MAX
        } else {
            0x1_0000_0000 < number_at(data@, inputs) * 64 <= isize::MAX
        },
    ensures
        hazard matches Some(why) && why@
            == "memory allocation failed because the memory allocator returned an error"@,
{
    assert(target(data@, 0, 0) == Some(intent));
    assert(target(data@, intent, 6) == Some(inputs));
    assert(length_at(data@, inputs) == Some(number_at(data@, inputs)));
    if inputs + 32 + 64 * number_at(data@, inputs) <= data@.len() {
        assert(target(data@, intent, 7) == Some(outputs));
        assert(length_at(data@, outputs) == Some(number_at(data@, outputs)));
    }
}

} // verus!
