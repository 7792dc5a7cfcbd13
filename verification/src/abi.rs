//! Hashing and ABI encoding, as the settler contracts know them.

use alloy_primitives::FixedBytes;
use alloy_sol_types::SolValue;
use vstd::prelude::*;
use crate::bytes::be_value;
use crate::eip7683::{MandateView, outputs_sized};
use crate::intent::IntentView;
use crate::layout::decoding_hazard;
use crate::primitives::{address_word, is_address_word, lemma_address_word, word};

verus! {

/// The Keccak-256 hash of a byte string.
pub uninterp spec fn keccak256_of(data: Seq<u8>) -> [u8; 32];

/// The Keccak-256 hash of a byte string, as a byte string.
pub open spec fn keccak256_digest(data: Seq<u8>) -> Seq<u8> {
    keccak256_of(data)@
}

/// The ABI encoding of a list of outputs, `abi.encode(outputs)`.
pub uninterp spec fn abi_encoded_outputs(outputs: Seq<MandateView>) -> Seq<u8>;

/// The fields of an intent as an ABI encoding holds them: addresses and times by their whole
/// words, which may hold more than an address or a time.
#[verifier::ext_equal]
pub struct WordsView {
    pub user: Seq<u8>,
    pub nonce: nat,
    pub origin_chain_id: nat,
    pub expires: nat,
    pub fill_deadline: nat,
    pub fill_oracle: Seq<u8>,
    pub inputs: Seq<(nat, nat)>,
    pub outputs: Seq<MandateView>,
    pub intent_oracle: Seq<u8>,
    pub refund_calldata: Seq<u8>,
}

/// The fields of an intent in their words.
pub open spec fn words_of(intent: IntentView) -> WordsView {
    WordsView {
        user: address_word(intent.user),
        nonce: intent.nonce,
        origin_chain_id: intent.origin_chain_id,
        expires: intent.expires as nat,
        fill_deadline: intent.fill_deadline as nat,
        fill_oracle: address_word(intent.fill_oracle),
        inputs: intent.inputs,
        outputs: intent.outputs,
        intent_oracle: address_word(intent.intent_oracle),
        refund_calldata: intent.refund_calldata,
    }
}

/// Whether every word holds what it is for and nothing else.
pub open spec fn words_clean(words: WordsView) -> bool {
    &&& is_address_word(words.user)
    &&& words.expires <= u32::MAX
    &&& words.fill_deadline <= u32::MAX
    &&& is_address_word(words.fill_oracle)
    &&& is_address_word(words.intent_oracle)
}

/// Whether the words of addresses have thirty-two bytes.
pub open spec fn words_sized(words: WordsView) -> bool {
    &&& words.user.len() == 32
    &&& words.fill_oracle.len() == 32
    &&& words.intent_oracle.len() == 32
}

/// The intent in words that hold what they are for.
pub open spec fn intent_of(words: WordsView) -> IntentView {
    IntentView {
        user: words.user.subrange(12, 32),
        nonce: words.nonce,
        origin_chain_id: words.origin_chain_id,
        expires: words.expires as u32,
        fill_deadline: words.fill_deadline as u32,
        fill_oracle: words.fill_oracle.subrange(12, 32),
        inputs: words.inputs,
        outputs: words.outputs,
        intent_oracle: words.intent_oracle.subrange(12, 32),
        refund_calldata: words.refund_calldata,
    }
}

/// An intent and its words determine each other.
pub proof fn lemma_words_of_intent(intent: IntentView, words: WordsView)
    ensures
        intent.user.len() == 20 && intent.fill_oracle.len() == 20 && intent.intent_oracle.len()
            == 20 ==> words_clean(words_of(intent)) && intent_of(words_of(intent)) == intent,
        words.user.len() == 32 && words.fill_oracle.len() == 32 && words.intent_oracle.len() == 32
            && words_clean(words) ==> words_of(intent_of(words)) == words,
{
    lemma_address_word(intent.user, words.user);
    lemma_address_word(intent.fill_oracle, words.fill_oracle);
    lemma_address_word(intent.intent_oracle, words.intent_oracle);
}

/// The ABI encoding of an intent, by its words.
pub uninterp spec fn abi_encoded_words(words: WordsView) -> Seq<u8>;

/// The ABI encoding of an intent, `abi.encode(intent)`.
pub open spec fn abi_encoded_intent(intent: IntentView) -> Seq<u8> {
    abi_encoded_words(words_of(intent))
}

/// The words that a byte string is the ABI encoding of, or what the decoder says of bytes that are
/// no encoding, on a machine whose largest length is `largest`.
pub uninterp spec fn abi_decoded_words(data: Seq<u8>, largest: nat) -> Result<
    WordsView,
    Seq<char>,
>;

/// That decoding gives certain words.
pub open spec fn words_as(words: WordsView) -> Result<WordsView, Seq<char>> {
    Ok(words)
}

/// That decoding gives an intent.
pub open spec fn decoded_as(intent: IntentView) -> Result<IntentView, Seq<char>> {
    Ok(intent)
}

/// The ABI encoding of the arguments of `finalise`: the words of an intent, the solves as pairs of
/// time and solver word, and the destination word.
pub uninterp spec fn abi_encoded_finalise(
    words: WordsView,
    solves: Seq<(u32, Seq<u8>)>,
    destination: Seq<u8>,
) -> Seq<u8>;

/// An output in the form that the encoder takes: oracle, settler, chain, token, amount and
/// recipient as words, then call and context.
pub type OutputWire = (
    [u8; 32],
    [u8; 32],
    [u8; 32],
    [u8; 32],
    [u8; 32],
    [u8; 32],
    Vec<u8>,
    Vec<u8>,
);

/// The output that wire values stand for.
pub open spec fn output_wire_view(wire: OutputWire) -> MandateView {
    MandateView {
        oracle: wire.0@,
        settler: wire.1@,
        chain_id: be_value(wire.2@),
        token: wire.3@,
        amount: be_value(wire.4@),
        recipient: wire.5@,
        call: wire.6@,
        context: wire.7@,
    }
}

/// The outputs that wire values stand for.
pub open spec fn outputs_wire_view(wire: Seq<OutputWire>) -> Seq<MandateView> {
    Seq::new(wire.len(), |i: int| output_wire_view(wire[i]))
}

/// An intent in the form that the encoder takes and the decoder gives: every field of a fixed size
/// as its word.
pub struct IntentWire {
    pub user: [u8; 32],
    pub nonce: [u8; 32],
    pub origin_chain_id: [u8; 32],
    pub expires: [u8; 32],
    pub fill_deadline: [u8; 32],
    pub fill_oracle: [u8; 32],
    pub inputs: Vec<[[u8; 32]; 2]>,
    pub outputs: Vec<OutputWire>,
    pub intent_oracle: [u8; 32],
    pub refund_calldata: Vec<u8>,
}

impl View for IntentWire {
    type V = WordsView;

    open spec fn view(&self) -> WordsView {
        WordsView {
            user: self.user@,
            nonce: be_value(self.nonce@),
            origin_chain_id: be_value(self.origin_chain_id@),
            expires: be_value(self.expires@),
            fill_deadline: be_value(self.fill_deadline@),
            fill_oracle: self.fill_oracle@,
            inputs: Seq::new(
                self.inputs@.len(),
                |i: int| (be_value(self.inputs@[i]@[0]@), be_value(self.inputs@[i]@[1]@)),
            ),
            outputs: outputs_wire_view(self.outputs@),
            intent_oracle: self.intent_oracle@,
            refund_calldata: self.refund_calldata@,
        }
    }
}

/// The solves of a `finalise` call, as pairs of time and solver word.
pub open spec fn solves_view(solves: Seq<(u32, [u8; 32])>) -> Seq<(u32, Seq<u8>)> {
    Seq::new(solves.len(), |i: int| (solves[i].0, solves[i].1@))
}

/// The ten words that an order identifier is the hash of, one after another.
pub open spec fn identifier_words(
    user: Seq<u8>,
    nonce: Seq<u8>,
    origin_chain_id: nat,
    expires: u32,
    fill_deadline: u32,
    fill_oracle: Seq<u8>,
    inputs_hash: Seq<u8>,
    outputs_hash: Seq<u8>,
    intent_oracle: Seq<u8>,
    refund_hash: Seq<u8>,
) -> Seq<u8> {
    address_word(user) + nonce + word(origin_chain_id) + word(expires as nat) + word(
        fill_deadline as nat,
    ) + address_word(fill_oracle) + inputs_hash + outputs_hash + address_word(intent_oracle)
        + refund_hash
}

/// Whether no outputs but these have an encoding.
pub open spec fn outputs_encoding_unique(encoded: Seq<u8>, outputs: Seq<MandateView>) -> bool {
    forall|other: Seq<MandateView>|
        outputs_sized(other) && #[trigger] abi_encoded_outputs(other) == encoded ==> other
            == outputs
}

/// `alloy_primitives::keccak256`: the hash is a function of the bytes alone.
#[verifier::external_body]
pub(crate) fn keccak256(data: &[u8]) -> (hash: [u8; 32])
    ensures
        hash == keccak256_of(data@),
{
    alloy_primitives::keccak256(data).0
}

/// `SolValue::abi_encode` on a tuple of static types: ten words, each field in its own. An
/// address stands in the last twenty bytes of its word, a number in big-endian form, a 32-byte
/// value as it is.
#[verifier::external_body]
pub(crate) fn abi_encode_identifier(
    user: [u8; 20],
    nonce: [u8; 32],
    origin_chain_id: u64,
    expires: u32,
    fill_deadline: u32,
    fill_oracle: [u8; 20],
    inputs_hash: [u8; 32],
    outputs_hash: [u8; 32],
    intent_oracle: [u8; 20],
    refund_hash: [u8; 32],
) -> (encoded: Vec<u8>)
    ensures
        encoded@ == identifier_words(
            user@,
            nonce@,
            origin_chain_id as nat,
            expires,
            fill_deadline,
            fill_oracle@,
            inputs_hash@,
            outputs_hash@,
            intent_oracle@,
            refund_hash@,
        ),
{
    (
        alloy_primitives::Address::from(user),
        nonce,
        alloy_primitives::U256::from(origin_chain_id),
        expires,
        fill_deadline,
        alloy_primitives::Address::from(fill_oracle),
        inputs_hash,
        outputs_hash,
        alloy_primitives::Address::from(intent_oracle),
        refund_hash,
    ).abi_encode()
}

/// `SolValue::abi_encode` on a list of outputs: the bytes are a function of the outputs alone, and
/// no other outputs have the same, since `abi_decode` reads the outputs back from them.
#[verifier::external_body]
pub(crate) fn abi_encode_outputs(outputs: Vec<OutputWire>) -> (encoded: Vec<u8>)
    ensures
        encoded@ == abi_encoded_outputs(outputs_wire_view(outputs@)),
        outputs_encoding_unique(encoded@, outputs_wire_view(outputs@)),
{
    outputs.abi_encode()
}

/// `SolValue::abi_encode` on an intent whose fields of a fixed size are given by their words, each
/// of which is encoded as it is: the bytes are a function of the words alone, no length in them is
/// one that must not reach the decoder, and `abi_decode` reads the same words back from them.
#[verifier::external_body]
pub(crate) fn abi_encode_intent(intent: IntentWire) -> (encoded: Vec<u8>)
    ensures
        encoded@ == abi_encoded_words(intent@),
        decoding_hazard(encoded@) is None,
        abi_decoded_words(encoded@, usize::MAX as nat) == words_as(intent@),
{
    (
        intent.user,
        intent.nonce,
        intent.origin_chain_id,
        intent.expires,
        intent.fill_deadline,
        intent.fill_oracle,
        intent.inputs,
        intent.outputs,
        intent.intent_oracle,
        intent.refund_calldata,
    ).abi_encode()
}

/// `SolValue::abi_encode_params` on the arguments of `finalise`, the intent by its words: the bytes
/// are a function of the arguments alone.
#[verifier::external_body]
pub(crate) fn abi_encode_finalise(
    intent: IntentWire,
    solves: Vec<(u32, [u8; 32])>,
    destination: [u8; 32],
) -> (encoded: Vec<u8>)
    ensures
        encoded@ == abi_encoded_finalise(intent@, solves_view(solves@), destination@),
{
    let head = (intent.user, intent.nonce, intent.origin_chain_id, intent.expires,
        intent.fill_deadline, intent.fill_oracle, intent.inputs, intent.outputs,
        intent.intent_oracle, intent.refund_calldata);
    (head, solves, destination).abi_encode_params()
}

/// The types that the decoder gives an output back in.
type OutputTuple = (
    alloy_primitives::B256,
    alloy_primitives::B256,
    alloy_primitives::B256,
    alloy_primitives::B256,
    alloy_primitives::B256,
    alloy_primitives::B256,
    alloy_primitives::Bytes,
    alloy_primitives::Bytes,
);

/// The types that the decoder gives an intent back in.
type IntentTuple = (
    alloy_primitives::B256,
    alloy_primitives::B256,
    alloy_primitives::B256,
    alloy_primitives::B256,
    alloy_primitives::B256,
    alloy_primitives::B256,
    Vec<[alloy_primitives::B256; 2]>,
    Vec<OutputTuple>,
    alloy_primitives::B256,
    alloy_primitives::Bytes,
);

/// `SolValue::abi_decode` with validation, every field of a fixed size as a whole word: whether the
/// bytes are an encoding, of which words, and what is said of bytes that are none, is a function
/// of the bytes and of the largest length that the machine can hold. Encoding the words again
/// gives the same bytes.
///
/// The decoder adds the length of a byte string to a position without a check, and asks for memory
/// for a list before it looks for the items: the lengths with which that goes wrong must not reach
/// it. Memory is taken to suffice for what the data holds, and for a list of up to `LIST_MEMORY`
/// bytes.
#[verifier::external_body]
pub(crate) fn abi_decode_intent(data: &[u8]) -> (intent: Result<IntentWire, String>)
    requires
        decoding_hazard(data@) is None,
    ensures
        match intent {
            Ok(wire) => abi_decoded_words(data@, usize::MAX as nat) == words_as(wire@)
                && abi_encoded_words(wire@) == data@,
            Err(e) => abi_decoded_words(data@, usize::MAX as nat) == Err::<WordsView, Seq<char>>(
                e@,
            ),
        },
{
    let (FixedBytes(user), FixedBytes(nonce), FixedBytes(origin_chain_id), FixedBytes(expires),
        FixedBytes(fill_deadline), FixedBytes(fill_oracle), inputs, outputs,
        FixedBytes(intent_oracle), refund) =
        IntentTuple::abi_decode(data, true).map_err(|e| e.to_string())?;
    Ok(IntentWire {
        user, nonce, origin_chain_id, expires, fill_deadline, fill_oracle,
        inputs: inputs.into_iter().map(|[token, amount]| [token.0, amount.0]).collect(),
        outputs: outputs.into_iter().map(|(a, b, c, d, e, f, g, h)|
            (a.0, b.0, c.0, d.0, e.0, f.0, g.to_vec(), h.to_vec())).collect(),
        intent_oracle, refund_calldata: refund.to_vec()
    })
}

} // verus!
