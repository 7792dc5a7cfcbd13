//! What an intent says: its order identifier, whether it is well formed, what it offers and what
//! it asks for.

use vstd::prelude::*;
use crate::abi::{abi_encoded_outputs, keccak256_of};
use crate::bytes::{be_value, lemma_be_bytes_of_value, zeros};
use crate::eip7683::MandateView;
use crate::intent::{inputs_view, packed_inputs, ShinobiIntent};
use crate::laws::encoding::{ends_in_address, lemma_ends_in_address, output_is};
use crate::parsed::{
    available_inputs_view, AvailableInput, requested_outputs_view, RequestedOutput,
};
use crate::primitives::U256;
use crate::text::hex_text;

verus! {

/// Whether every byte is zero.
pub open spec fn all_zeros(bytes: Seq<u8>) -> bool {
    forall|i: int| 0 <= i < bytes.len() ==> #[trigger] bytes[i] == 0
}

/// Bytes are zeros exactly if each of them is zero.
pub proof fn lemma_all_zeros(bytes: Seq<u8>)
    ensures
        bytes == zeros(bytes.len()) <==> all_zeros(bytes),
{
    if all_zeros(bytes) {
        assert(bytes =~= zeros(bytes.len()));
    }
    if bytes == zeros(bytes.len()) {
        assert forall|i: int| 0 <= i < bytes.len() implies #[trigger] bytes[i] == 0 by {
            assert(zeros(bytes.len())[i] == 0);
        }
    }
}

// ---------------------------------------------------------------------------
// Order identifier
// ---------------------------------------------------------------------------
/// Whether bytes are the inputs one after another, each as the word of its token number and the
/// word of its amount.
pub open spec fn packs(packed: Seq<u8>, inputs: Seq<[U256; 2]>) -> bool {
    &&& packed.len() == 64 * inputs.len()
    &&& forall|i: int|
        0 <= i < inputs.len() ==> {
            let (token, amount) = ((#[trigger] inputs[i])@[0], inputs[i]@[1]);
            &&& be_value(packed.subrange(64 * i, 64 * i + 32)) == token@
            &&& be_value(packed.subrange(64 * i + 32, 64 * i + 64)) == amount@
        }
}

/// The order identifier is the hash of ten words, as `abi.encode` puts them one after another:
/// user, nonce, origin chain, expiry, fill deadline, fill oracle, the hash of the packed inputs,
/// the hash of the encoded outputs, intent oracle, and the hash of the refund call.
pub proof fn law_order_identifier_hashes_ten_words(
    intent: ShinobiIntent,
    id: [u8; 32],
    packed: Seq<u8>,
    outputs: Seq<MandateView>,
    hashed: Seq<u8>,
)
    requires
        call_ensures(ShinobiIntent::order_identifier, (&intent,), id),
        packs(packed, intent.inputs@),
        outputs.len() == intent.outputs@.len(),
        forall|i: int|
            0 <= i < outputs.len() ==> output_is(#[trigger] outputs[i], intent.outputs@[i]),
        hashed.len() == 320,
        ends_in_address(hashed.subrange(0, 32), intent.user.bytes),
        be_value(hashed.subrange(32, 64)) == intent.nonce@,
        be_value(hashed.subrange(64, 96)) == intent.origin_chain_id,
        be_value(hashed.subrange(96, 128)) == intent.expires,
        be_value(hashed.subrange(128, 160)) == intent.fill_deadline,
        ends_in_address(hashed.subrange(160, 192), intent.fill_oracle.bytes),
        hashed.subrange(192, 224) == keccak256_of(packed)@,
        hashed.subrange(224, 256) == keccak256_of(abi_encoded_outputs(outputs))@,
        ends_in_address(hashed.subrange(256, 288), intent.intent_oracle.bytes),
        hashed.subrange(288, 320) == keccak256_of(intent.refund_calldata@)@,
    ensures
        id@ == keccak256_of(hashed)@,
{
    let v = intent@;
    lemma_packed(packed, intent.inputs@, intent.inputs@.len() as int);
    assert(packed.subrange(0, packed.len() as int) =~= packed);
    assert(v.inputs.take(v.inputs.len() as int) =~= v.inputs);
    assert forall|i: int| 0 <= i < outputs.len() implies #[trigger] outputs[i]
        == v.outputs[i] by {
        assert(output_is(outputs[i], intent.outputs@[i]));
    }
    assert(outputs =~= v.outputs);
    lemma_ends_in_address(hashed.subrange(0, 32), intent.user.bytes);
    lemma_be_bytes_of_value(hashed.subrange(32, 64));
    lemma_be_bytes_of_value(hashed.subrange(64, 96));
    lemma_be_bytes_of_value(hashed.subrange(96, 128));
    lemma_be_bytes_of_value(hashed.subrange(128, 160));
    lemma_ends_in_address(hashed.subrange(160, 192), intent.fill_oracle.bytes);
    lemma_ends_in_address(hashed.subrange(256, 288), intent.intent_oracle.bytes);
    lemma_ten_parts(hashed);
}

/// A byte string of ten words is these words one after another.
proof fn lemma_ten_parts(s: Seq<u8>)
    requires
        s.len() == 320,
    ensures
        s.subrange(0, 32) + s.subrange(32, 64) + s.subrange(64, 96) + s.subrange(96, 128)
            + s.subrange(128, 160) + s.subrange(160, 192) + s.subrange(192, 224) + s.subrange(
            224,
            256,
        ) + s.subrange(256, 288) + s.subrange(288, 320) == s,
{
    assert(s.subrange(0, 32) + s.subrange(32, 64) =~= s.subrange(0, 64));
    assert(s.subrange(0, 64) + s.subrange(64, 96) =~= s.subrange(0, 96));
    assert(s.subrange(0, 96) + s.subrange(96, 128) =~= s.subrange(0, 128));
    assert(s.subrange(0, 128) + s.subrange(128, 160) =~= s.subrange(0, 160));
    assert(s.subrange(0, 160) + s.subrange(160, 192) =~= s.subrange(0, 192));
    assert(s.subrange(0, 192) + s.subrange(192, 224) =~= s.subrange(0, 224));
    assert(s.subrange(0, 224) + s.subrange(224, 256) =~= s.subrange(0, 256));
    assert(s.subrange(0, 256) + s.subrange(256, 288) =~= s.subrange(0, 288));
    assert(s.subrange(0, 288) + s.subrange(288, 320) =~= s);
}

/// The first inputs in packed form are the front of the packed bytes.
proof fn lemma_packed(packed: Seq<u8>, inputs: Seq<[U256; 2]>, n: int)
    requires
        packs(packed, inputs),
        0 <= n <= inputs.len(),
    ensures
        packed_inputs(inputs_view(inputs).take(n)) == packed.subrange(0, 64 * n),
    decreases n,
{
    let all = inputs_view(inputs);
    if n > 0 {
        lemma_packed(packed, inputs, n - 1);
        let i = n - 1;
        assert(all.take(n).drop_last() =~= all.take(n - 1));
        assert(all.take(n).last() == (inputs[i]@[0]@, inputs[i]@[1]@));
        let token = packed.subrange(64 * i, 64 * i + 32);
        let amount = packed.subrange(64 * i + 32, 64 * i + 64);
        lemma_be_bytes_of_value(token);
        lemma_be_bytes_of_value(amount);
        assert(packed.subrange(0, 64 * i) + token + amount =~= packed.subrange(0, 64 * n));
    } else {
        assert(packed.subrange(0, 0) =~= Seq::<u8>::empty());
        assert(all.take(0) =~= Seq::<(nat, nat)>::empty());
    }
}

// ---------------------------------------------------------------------------
// Reading an intent
// ---------------------------------------------------------------------------
/// An intent is well formed if it has a user, an input, an output and both oracles; what is
/// missing first in this order is named.
pub proof fn law_well_formed_intent(intent: ShinobiIntent, checked: Result<(), String>)
    requires
        call_ensures(ShinobiIntent::validate, (&intent,), checked),
    ensures
        checked is Ok <==> !all_zeros(intent.user.bytes@) && intent.inputs@.len() > 0
            && intent.outputs@.len() > 0 && !all_zeros(intent.intent_oracle.bytes@) && !all_zeros(
            intent.fill_oracle.bytes@,
        ),
        checked matches Err(e) ==> e@ == (if all_zeros(intent.user.bytes@) {
            "Invalid user: zero address"@
        } else if intent.inputs@.len() == 0 {
            "Invalid inputs: must have at least one input"@
        } else if intent.outputs@.len() == 0 {
            "Invalid outputs: must have at least one output"@
        } else if all_zeros(intent.intent_oracle.bytes@) {
            "Invalid intent oracle: zero address"@
        } else {
            "Invalid fill oracle: zero address"@
        }),
{
    lemma_all_zeros(intent.user.bytes@);
    lemma_all_zeros(intent.intent_oracle.bytes@);
    lemma_all_zeros(intent.fill_oracle.bytes@);
}

/// An intent is a withdrawal if it comes from Ethereum mainnet, and a deposit otherwise.
pub proof fn law_direction_is_told_by_the_origin(
    intent: ShinobiIntent,
    withdrawal: bool,
    deposit: bool,
    origin: u64,
)
    requires
        call_ensures(ShinobiIntent::is_withdrawal, (&intent,), withdrawal),
        call_ensures(ShinobiIntent::is_deposit, (&intent,), deposit),
        call_ensures(ShinobiIntent::origin_chain_id, (&intent,), origin),
    ensures
        withdrawal <==> intent.origin_chain_id == 1,
        deposit <==> intent.origin_chain_id != 1,
        origin == intent.origin_chain_id,
{
}

/// The first output tells the amount, and whether native ETH is to be paid: it is exactly if all
/// thirty-two bytes of the token are zero, whatever the chain.
pub proof fn law_first_output_tells_what_to_pay(
    intent: ShinobiIntent,
    native: bool,
    amount: Option<U256>,
)
    requires
        call_ensures(ShinobiIntent::is_native_eth_output, (&intent,), native),
        call_ensures(ShinobiIntent::output_amount, (&intent,), amount),
    ensures
        intent.outputs@.len() == 0 ==> !native && amount is None,
        intent.outputs@.len() > 0 ==> {
            &&& native <==> all_zeros(intent.outputs@[0].token@)
            &&& amount matches Some(a)
            &&& a@ == intent.outputs@[0].amount@
        },
{
    if intent.outputs@.len() > 0 {
        assert(intent@.outputs[0] == intent.outputs@[0]@);
        lemma_all_zeros(intent.outputs@[0].token@);
    }
}

/// The destination is the chain of the first output.
pub proof fn law_first_output_tells_the_destination(intent: ShinobiIntent, chain: Option<u64>)
    requires
        intent.outputs@.len() > 0 ==> intent.outputs@[0].chain_id@ <= u64::MAX,
        call_ensures(ShinobiIntent::destination_chain_id, (&intent,), chain),
    ensures
        match chain {
            Some(c) => intent.outputs@.len() > 0 && c == intent.outputs@[0].chain_id@,
            None => intent.outputs@.len() == 0,
        },
{
    if intent.outputs@.len() > 0 {
        assert(intent@.outputs[0] == intent.outputs@[0]@);
    }
}

/// The oracle of the origin chain is shown in hexadecimal, and the lock is the settler's escrow.
pub proof fn law_oracle_and_lock(
    intent: ShinobiIntent,
    oracle: String,
    lock_type: Option<String>,
)
    requires
        call_ensures(ShinobiIntent::input_oracle, (&intent,), oracle),
        call_ensures(ShinobiIntent::parse_lock_type, (&intent,), lock_type),
    ensures
        oracle@ == "0x"@ + hex_text(intent.fill_oracle.bytes@),
        lock_type matches Some(t) && t@ == "native_escrow"@,
{
}

/// Each output names its chain, or zero where the identifier has more than 64 bits.
pub proof fn law_destination_chains(intent: ShinobiIntent, chains: Vec<u64>, i: int)
    requires
        call_ensures(ShinobiIntent::destination_chain_ids, (&intent,), chains),
        0 <= i < intent.outputs@.len(),
    ensures
        chains@.len() == intent.outputs@.len(),
        chains@[i] == (if intent.outputs@[i].chain_id@ <= u64::MAX {
            intent.outputs@[i].chain_id@
        } else {
            0
        }),
{
    assert(intent@.outputs[i] == intent.outputs@[i]@);
}

/// Every input is offered by the user on the origin chain: the token is the address in the word of
/// the token number.
pub proof fn law_every_input_is_offered(
    intent: ShinobiIntent,
    offered: Vec<AvailableInput>,
    i: int,
    token_word: Seq<u8>,
)
    requires
        call_ensures(ShinobiIntent::parse_available_inputs, (&intent,), offered),
        0 <= i < intent.inputs@.len(),
        token_word.len() == 32,
        be_value(token_word) == intent.inputs@[i]@[0]@,
    ensures
        offered@.len() == intent.inputs@.len(),
        offered@[i].user.chain_id == intent.origin_chain_id,
        offered@[i].user.address.0@ == intent.user.bytes@,
        offered@[i].asset.chain_id == intent.origin_chain_id,
        offered@[i].asset.address.0@ == token_word.subrange(12, 32),
        offered@[i].amount@ == intent.inputs@[i]@[1]@,
        offered@[i].lock is None,
{
    assert(available_inputs_view(offered@).len() == intent@.inputs.len());
    assert(available_inputs_view(offered@)[i] == offered@[i]@);
    assert(intent@.inputs[i] == (intent.inputs@[i]@[0]@, intent.inputs@[i]@[1]@));
    lemma_be_bytes_of_value(token_word);
}

/// Every output is asked for on its chain: receiver and token are the addresses in their words, and
/// the call is shown where there is one.
pub proof fn law_every_output_is_asked_for(
    intent: ShinobiIntent,
    requested: Vec<RequestedOutput>,
    i: int,
)
    requires
        call_ensures(ShinobiIntent::parse_requested_outputs, (&intent,), requested),
        0 <= i < intent.outputs@.len(),
    ensures
        requested@.len() == intent.outputs@.len(),
        ({
            let output = intent.outputs@[i];
            let chain: nat = if output.chain_id@ <= u64::MAX {
                output.chain_id@
            } else {
                0
            };
            &&& requested@[i].receiver.chain_id == chain
            &&& requested@[i].receiver.address.0@ == output.recipient@.subrange(12, 32)
            &&& requested@[i].asset.chain_id == chain
            &&& requested@[i].asset.address.0@ == output.token@.subrange(12, 32)
            &&& requested@[i].amount@ == output.amount@
            &&& requested@[i].calldata is None <==> output.call@.len() == 0
            &&& requested@[i].calldata matches Some(t) ==> t@ == hex_text(output.call@)
        }),
{
    assert(requested_outputs_view(requested@).len() == intent@.outputs.len());
    assert(requested_outputs_view(requested@)[i] == requested@[i]@);
    assert(intent@.outputs[i] == intent.outputs@[i]@);
}

} // verus!
