//! The settler contracts' view of an intent: its Solidity form, calldata and the `Open` event.

use vstd::prelude::*;
use vstd::std_specs::convert::FromSpec;
use vstd::utf8::encode_utf8;
use crate::abi::{
    abi_decode_intent, abi_decoded_words, abi_encode_finalise, abi_encode_intent,
    abi_encoded_finalise, abi_encoded_intent, decoded_as, intent_of, IntentWire, keccak256,
    keccak256_digest, lemma_words_of_intent, output_wire_view, outputs_wire_view, OutputWire,
    solves_view, words_clean, words_of, words_sized, WordsView,
};
use crate::bytes::{append_bytes, be_value, copy_bytes, same_bytes};
use crate::eip7683::{MandateOutput as RustMandateOutput, MandateView, outputs_view};
use crate::intent::{copy_inputs, inputs_view, IntentView, ShinobiIntent};
use crate::layout::{decoding_hazard, find_hazard};
use crate::primitives::{Address, U256, word};
use crate::text::{encode_hex, hex_0x, hex_0x_text, hex_text};

verus! {

/// An output in its Solidity form.
#[allow(non_snake_case)]
#[derive(Debug, PartialEq, Eq)]
pub struct MandateOutput {
    pub oracle: [u8; 32],
    pub settler: [u8; 32],
    pub chainId: U256,
    pub token: [u8; 32],
    pub amount: U256,
    pub recipient: [u8; 32],
    pub call: Vec<u8>,
    pub context: Vec<u8>,
}

impl View for MandateOutput {
    type V = MandateView;

    open spec fn view(&self) -> MandateView {
        MandateView {
            oracle: self.oracle@,
            settler: self.settler@,
            chain_id: self.chainId@,
            token: self.token@,
            amount: self.amount@,
            recipient: self.recipient@,
            call: self.call@,
            context: self.context@,
        }
    }
}

/// A list of outputs in Solidity form as mathematical values.
pub open spec fn sol_outputs_view(outputs: Seq<MandateOutput>) -> Seq<MandateView> {
    Seq::new(outputs.len(), |i: int| outputs[i]@)
}

/// An intent in its Solidity form.
#[allow(non_snake_case)]
#[derive(Debug, PartialEq, Eq)]
pub struct ShinobiIntentSol {
    pub user: Address,
    pub nonce: U256,
    pub originChainId: U256,
    pub expires: u32,
    pub fillDeadline: u32,
    pub fillOracle: Address,
    pub inputs: Vec<[U256; 2]>,
    pub outputs: Vec<MandateOutput>,
    pub intentOracle: Address,
    pub refundCalldata: Vec<u8>,
}

impl View for ShinobiIntentSol {
    type V = IntentView;

    open spec fn view(&self) -> IntentView {
        IntentView {
            user: self.user@,
            nonce: self.nonce@,
            origin_chain_id: self.originChainId@,
            expires: self.expires,
            fill_deadline: self.fillDeadline,
            fill_oracle: self.fillOracle@,
            inputs: inputs_view(self.inputs@),
            outputs: sol_outputs_view(self.outputs@),
            intent_oracle: self.intentOracle@,
            refund_calldata: self.refundCalldata@,
        }
    }
}

/// When an output was filled and by whom, as `finalise` takes it.
#[derive(Debug, Clone, Copy, PartialEq, Eq)]
pub struct SolveParams {
    pub timestamp: u32,
    pub solver: [u8; 32],
}

// ---------------------------------------------------------------------------
// Conversions
// ---------------------------------------------------------------------------
impl From<RustMandateOutput> for MandateOutput {
    fn from(output: RustMandateOutput) -> (sol: Self)
        ensures
            sol@ == output@,
    {
        MandateOutput {
            oracle: output.oracle,
            settler: output.settler,
            chainId: output.chain_id,
            token: output.token,
            amount: output.amount,
            recipient: output.recipient,
            call: output.call,
            context: output.context,
        }
    }
}

impl vstd::std_specs::convert::FromSpecImpl<RustMandateOutput> for MandateOutput {
    open spec fn obeys_from_spec() -> bool {
        true
    }

    open spec fn from_spec(output: RustMandateOutput) -> Self {
        MandateOutput {
            oracle: output.oracle,
            settler: output.settler,
            chainId: output.chain_id,
            token: output.token,
            amount: output.amount,
            recipient: output.recipient,
            call: output.call,
            context: output.context,
        }
    }
}

impl From<MandateOutput> for RustMandateOutput {
    fn from(sol: MandateOutput) -> (output: Self)
        ensures
            output@ == sol@,
    {
        RustMandateOutput {
            oracle: sol.oracle,
            settler: sol.settler,
            chain_id: sol.chainId,
            token: sol.token,
            amount: sol.amount,
            recipient: sol.recipient,
            call: sol.call,
            context: sol.context,
        }
    }
}

impl vstd::std_specs::convert::FromSpecImpl<MandateOutput> for RustMandateOutput {
    open spec fn obeys_from_spec() -> bool {
        true
    }

    open spec fn from_spec(sol: MandateOutput) -> Self {
        RustMandateOutput {
            oracle: sol.oracle,
            settler: sol.settler,
            chain_id: sol.chainId,
            token: sol.token,
            amount: sol.amount,
            recipient: sol.recipient,
            call: sol.call,
            context: sol.context,
        }
    }
}

impl Clone for MandateOutput {
    fn clone(&self) -> (copy: Self)
        ensures
            copy@ == self@,
    {
        MandateOutput {
            oracle: self.oracle,
            settler: self.settler,
            chainId: self.chainId,
            token: self.token,
            amount: self.amount,
            recipient: self.recipient,
            call: copy_bytes(self.call.as_slice()),
            context: copy_bytes(self.context.as_slice()),
        }
    }
}

/// The outputs in Solidity form.
pub fn outputs_to_sol(outputs: &Vec<RustMandateOutput>) -> (sol: Vec<MandateOutput>)
    ensures
        sol_outputs_view(sol@) == outputs_view(outputs@),
{
    let mut sol: Vec<MandateOutput> = Vec::new();
    for i in 0..outputs.len()
        invariant
            sol@.len() == i,
            forall|j: int| 0 <= j < i ==> sol@[j]@ == #[trigger] outputs@[j]@,
    {
        sol.push(MandateOutput::from(outputs[i].clone()));
    }
    assert(sol_outputs_view(sol@) =~= outputs_view(outputs@));
    sol
}

/// The outputs taken back from Solidity form.
pub fn outputs_from_sol(sol: &Vec<MandateOutput>) -> (outputs: Vec<RustMandateOutput>)
    ensures
        outputs_view(outputs@) == sol_outputs_view(sol@),
{
    let mut outputs: Vec<RustMandateOutput> = Vec::new();
    for i in 0..sol.len()
        invariant
            outputs@.len() == i,
            forall|j: int| 0 <= j < i ==> outputs@[j]@ == #[trigger] sol@[j]@,
    {
        outputs.push(RustMandateOutput::from(sol[i].clone()));
    }
    assert(outputs_view(outputs@) =~= sol_outputs_view(sol@));
    outputs
}

impl From<ShinobiIntent> for ShinobiIntentSol {
    fn from(intent: ShinobiIntent) -> (sol: Self)
        ensures
            sol@ == intent@,
    {
        let outputs = outputs_to_sol(&intent.outputs);
        ShinobiIntentSol {
            user: intent.user,
            nonce: intent.nonce,
            originChainId: U256::from(intent.origin_chain_id),
            expires: intent.expires,
            fillDeadline: intent.fill_deadline,
            fillOracle: intent.fill_oracle,
            inputs: intent.inputs,
            outputs,
            intentOracle: intent.intent_oracle,
            refundCalldata: intent.refund_calldata,
        }
    }
}

impl vstd::std_specs::convert::FromSpecImpl<ShinobiIntent> for ShinobiIntentSol {
    open spec fn obeys_from_spec() -> bool {
        false
    }

    open spec fn from_spec(intent: ShinobiIntent) -> Self {
        arbitrary()
    }
}

impl ShinobiIntent {
    /// The intent of a Solidity form whose origin chain fits in 64 bits.
    pub fn from_sol(sol: ShinobiIntentSol) -> (intent: ShinobiIntent)
        requires
            sol@.origin_chain_id <= u64::MAX,
        ensures
            intent@ == sol@,
    {
        let outputs = outputs_from_sol(&sol.outputs);
        ShinobiIntent {
            user: sol.user,
            nonce: sol.nonce,
            origin_chain_id: sol.originChainId.to_u64(),
            expires: sol.expires,
            fill_deadline: sol.fillDeadline,
            fill_oracle: sol.fillOracle,
            inputs: sol.inputs,
            outputs,
            intent_oracle: sol.intentOracle,
            refund_calldata: sol.refundCalldata,
        }
    }
}

impl Clone for ShinobiIntentSol {
    fn clone(&self) -> (copy: Self)
        ensures
            copy@ == self@,
    {
        let mut outputs: Vec<MandateOutput> = Vec::new();
        for i in 0..self.outputs.len()
            invariant
                outputs@.len() == i,
                forall|j: int| 0 <= j < i ==> outputs@[j]@ == #[trigger] self.outputs@[j]@,
        {
            outputs.push(self.outputs[i].clone());
        }
        assert(sol_outputs_view(outputs@) =~= sol_outputs_view(self.outputs@));
        ShinobiIntentSol {
            user: self.user,
            nonce: self.nonce,
            originChainId: self.originChainId,
            expires: self.expires,
            fillDeadline: self.fillDeadline,
            fillOracle: self.fillOracle,
            inputs: copy_inputs(&self.inputs),
            outputs,
            intentOracle: self.intentOracle,
            refundCalldata: copy_bytes(self.refundCalldata.as_slice()),
        }
    }
}

// ---------------------------------------------------------------------------
// Wire form
// ---------------------------------------------------------------------------
/// The outputs with their numbers as words.
pub(crate) fn outputs_to_wire(outputs: &Vec<MandateOutput>) -> (wire: Vec<OutputWire>)
    ensures
        outputs_wire_view(wire@) == sol_outputs_view(outputs@),
{
    let mut wire: Vec<OutputWire> = Vec::new();
    for i in 0..outputs.len()
        invariant
            wire@.len() == i,
            forall|j: int|
                0 <= j < i ==> output_wire_view(#[trigger] wire@[j]) == outputs@[j]@,
    {
        let output = &outputs[i];
        wire.push(
            (
                output.oracle,
                output.settler,
                output.chainId.to_be_bytes(),
                output.token,
                output.amount.to_be_bytes(),
                output.recipient,
                copy_bytes(output.call.as_slice()),
                copy_bytes(output.context.as_slice()),
            ),
        );
    }
    assert(outputs_wire_view(wire@) =~= sol_outputs_view(outputs@));
    wire
}

/// The outputs with their words read as numbers.
fn outputs_from_wire(wire: &Vec<OutputWire>) -> (outputs: Vec<MandateOutput>)
    ensures
        sol_outputs_view(outputs@) == outputs_wire_view(wire@),
{
    let mut outputs: Vec<MandateOutput> = Vec::new();
    for i in 0..wire.len()
        invariant
            outputs@.len() == i,
            forall|j: int|
                0 <= j < i ==> (#[trigger] outputs@[j])@ == output_wire_view(wire@[j]),
    {
        let output = &wire[i];
        outputs.push(
            MandateOutput {
                oracle: output.0,
                settler: output.1,
                chainId: U256::from_be_bytes(&output.2),
                token: output.3,
                amount: U256::from_be_bytes(&output.4),
                recipient: output.5,
                call: copy_bytes(output.6.as_slice()),
                context: copy_bytes(output.7.as_slice()),
            },
        );
    }
    assert(sol_outputs_view(outputs@) =~= outputs_wire_view(wire@));
    outputs
}

/// The intent with its numbers as words.
fn intent_to_wire(intent: &ShinobiIntentSol) -> (wire: IntentWire)
    ensures
        wire@ == words_of(intent@),
{
    let mut inputs: Vec<[[u8; 32]; 2]> = Vec::new();
    for i in 0..intent.inputs.len()
        invariant
            inputs@.len() == i,
            forall|j: int|
                0 <= j < i ==> be_value((#[trigger] inputs@[j])@[0]@)
                    == intent.inputs@[j]@[0]@ && be_value(inputs@[j]@[1]@)
                    == intent.inputs@[j]@[1]@,
    {
        let token = intent.inputs[i][0].to_be_bytes();
        let amount = intent.inputs[i][1].to_be_bytes();
        inputs.push([token, amount]);
    }
    let wire = IntentWire {
        user: intent.user.to_word(),
        nonce: intent.nonce.to_be_bytes(),
        origin_chain_id: intent.originChainId.to_be_bytes(),
        expires: U256::from(intent.expires as u64).to_be_bytes(),
        fill_deadline: U256::from(intent.fillDeadline as u64).to_be_bytes(),
        fill_oracle: intent.fillOracle.to_word(),
        inputs,
        outputs: outputs_to_wire(&intent.outputs),
        intent_oracle: intent.intentOracle.to_word(),
        refund_calldata: copy_bytes(intent.refundCalldata.as_slice()),
    };
    assert(wire@ =~= words_of(intent@));
    wire
}

/// A time in a word, if the word holds nothing else.
fn time_in_word(bytes32: &[u8; 32]) -> (time: Option<u32>)
    ensures
        match time {
            Some(t) => be_value(bytes32@) == t,
            None => be_value(bytes32@) > u32::MAX,
        },
{
    match U256::from_be_bytes(bytes32).try_to_u64() {
        Some(value) => if value <= u32::MAX as u64 {
            Some(value as u32)
        } else {
            None
        },
        None => None,
    }
}

/// The intent with its words read as addresses and numbers, if every word holds what it is for and
/// nothing else.
fn intent_from_wire(wire: IntentWire) -> (intent: Option<ShinobiIntentSol>)
    ensures
        match intent {
            Some(sol) => words_clean(wire@) && sol@ == intent_of(wire@),
            None => !words_clean(wire@),
        },
{
    let mut inputs: Vec<[U256; 2]> = Vec::new();
    for i in 0..wire.inputs.len()
        invariant
            inputs@.len() == i,
            forall|j: int|
                0 <= j < i ==> (#[trigger] inputs@[j])@[0]@ == be_value(wire.inputs@[j]@[0]@)
                    && inputs@[j]@[1]@ == be_value(wire.inputs@[j]@[1]@),
    {
        let token = U256::from_be_bytes(&wire.inputs[i][0]);
        let amount = U256::from_be_bytes(&wire.inputs[i][1]);
        inputs.push([token, amount]);
    }
    match (
        Address::from_word(&wire.user),
        time_in_word(&wire.expires),
        time_in_word(&wire.fill_deadline),
        Address::from_word(&wire.fill_oracle),
        Address::from_word(&wire.intent_oracle),
    ) {
        (Some(user), Some(expires), Some(fill_deadline), Some(fill_oracle), Some(
            intent_oracle,
        )) => {
            let sol = ShinobiIntentSol {
                user,
                nonce: U256::from_be_bytes(&wire.nonce),
                originChainId: U256::from_be_bytes(&wire.origin_chain_id),
                expires,
                fillDeadline: fill_deadline,
                fillOracle: fill_oracle,
                inputs,
                outputs: outputs_from_wire(&wire.outputs),
                intentOracle: intent_oracle,
                refundCalldata: copy_bytes(wire.refund_calldata.as_slice()),
            };
            assert(sol@ =~= intent_of(wire@));
            Some(sol)
        },
        _ => None,
    }
}

/// The words that bytes are the encoding of, or what is wrong with the bytes. A length that must
/// not reach the decoder is answered for it.
pub open spec fn words_outcome(data: Seq<u8>) -> Result<WordsView, Seq<char>> {
    match decoding_hazard(data) {
        Some(why) => Err(why),
        None => abi_decoded_words(data, usize::MAX as nat),
    }
}

/// What is said of the encoding of an intent in which a word holds more than it is for. As the
/// data of an event, the intent is shown as the only member of a tuple, which has an offset of its
/// own in front.
pub open spec fn dirty_message(data: Seq<u8>, in_event: bool) -> Seq<char> {
    if in_event {
        "type check failed for \"(ShinobiIntentSol)\" with data: "@ + hex_text(word(32) + data)
    } else {
        "type check failed for \"ShinobiIntentSol\" with data: "@ + hex_text(data)
    }
}

/// What decoding bytes as an intent, by itself or as the data of an event, comes to.
pub open spec fn decode_in(data: Seq<u8>, in_event: bool) -> Result<IntentView, Seq<char>> {
    match words_outcome(data) {
        Err(e) => Err(e),
        Ok(words) => if words_clean(words) {
            Ok(intent_of(words))
        } else {
            Err(dirty_message(data, in_event))
        },
    }
}

/// What decoding bytes as an intent comes to: the intent, or what is wrong with the bytes.
pub open spec fn decode_outcome(data: Seq<u8>) -> Result<IntentView, Seq<char>> {
    decode_in(data, false)
}

/// A decoded intent, or the error, as a mathematical value.
pub open spec fn decoded_view(decoded: Result<ShinobiIntentSol, String>) -> Result<
    IntentView,
    Seq<char>,
> {
    match decoded {
        Ok(sol) => Ok(sol@),
        Err(e) => Err(e@),
    }
}

/// Decodes bytes as an intent, by itself or as the data of an event.
fn decode_intent(data: &[u8], in_event: bool) -> (intent: Result<ShinobiIntentSol, String>)
    ensures
        decoded_view(intent) == decode_in(data@, in_event),
        intent matches Ok(sol) ==> abi_encoded_intent(sol@) == data@,
        words_outcome(data@) matches Ok(words) ==> words_sized(words),
{
    match find_hazard(data) {
        Some(why) => {
            return Err(why);
        },
        None => {},
    }
    let wire = match abi_decode_intent(data) {
        Ok(wire) => wire,
        Err(e) => {
            return Err(e);
        },
    };
    proof {
        lemma_words_of_intent(intent_of(wire@), wire@);
    }
    match intent_from_wire(wire) {
        Some(sol) => Ok(sol),
        None => if in_event {
            let mut shown: Vec<u8> = Vec::new();
            let offset = U256::from(32u64).to_be_bytes();
            append_bytes(&mut shown, &offset);
            append_bytes(&mut shown, data);
            assert(shown@ =~= word(32) + data@);
            Err(
                "type check failed for \"(ShinobiIntentSol)\" with data: ".to_owned().concat(
                    encode_hex(shown.as_slice()).as_str(),
                ),
            )
        } else {
            Err(
                "type check failed for \"ShinobiIntentSol\" with data: ".to_owned().concat(
                    encode_hex(data).as_str(),
                ),
            )
        },
    }
}

impl ShinobiIntentSol {
    /// The ABI encoding of the intent.
    pub fn abi_encode(&self) -> (encoded: Vec<u8>)
        ensures
            encoded@ == abi_encoded_intent(self@),
            decode_outcome(encoded@) == decoded_as(self@),
    {
        proof {
            lemma_words_of_intent(self@, words_of(self@));
        }
        abi_encode_intent(intent_to_wire(self))
    }

    /// Reads an intent from its ABI encoding, and refuses bytes that are not exactly one.
    pub fn abi_decode(data: &[u8]) -> (intent: Result<ShinobiIntentSol, String>)
        ensures
            decoded_view(intent) == decode_outcome(data@),
            intent matches Ok(sol) ==> abi_encoded_intent(sol@) == data@,
            words_outcome(data@) matches Ok(words) ==> words_sized(words),
    {
        decode_intent(data, false)
    }
}

// ---------------------------------------------------------------------------
// Calldata and events
// ---------------------------------------------------------------------------
/// The Solidity signature of `fill`.
pub const FILL_SIGNATURE: &'static str =
    "fill((address,uint256,uint256,uint32,uint32,address,uint256[2][],(bytes32,bytes32,uint256,bytes32,uint256,bytes32,bytes,bytes)[],address,bytes))";

/// The Solidity signature of `finalise`.
pub const FINALISE_SIGNATURE: &'static str =
    "finalise((address,uint256,uint256,uint32,uint32,address,uint256[2][],(bytes32,bytes32,uint256,bytes32,uint256,bytes32,bytes,bytes)[],address,bytes),(uint32,bytes32)[],bytes32)";

/// The Solidity signature of the `Open` event.
pub const OPEN_SIGNATURE: &'static str =
    "Open(bytes32,(address,uint256,uint256,uint32,uint32,address,uint256[2][],(bytes32,bytes32,uint256,bytes32,uint256,bytes32,bytes,bytes)[],address,bytes))";

/// The hash of a signature.
pub open spec fn signature_hash(signature: Seq<char>) -> Seq<u8> {
    keccak256_digest(encode_utf8(signature))
}

/// The four bytes that select a function: the first of the hash of its signature.
pub open spec fn selector(signature: Seq<char>) -> Seq<u8> {
    signature_hash(signature).subrange(0, 4)
}

/// The calldata of `fill(intent)`.
pub open spec fn fill_calldata(intent: IntentView) -> Seq<u8> {
    selector(FILL_SIGNATURE@) + abi_encoded_intent(intent)
}

/// The calldata of `finalise(intent, solves, destination)`.
pub open spec fn finalise_calldata(
    intent: IntentView,
    solves: Seq<(u32, Seq<u8>)>,
    destination: Seq<u8>,
) -> Seq<u8> {
    selector(FINALISE_SIGNATURE@) + abi_encoded_finalise(words_of(intent), solves, destination)
}

/// The solves as pairs of time and solver word.
pub open spec fn solve_params_view(params: Seq<SolveParams>) -> Seq<(u32, Seq<u8>)> {
    Seq::new(params.len(), |i: int| (params[i].timestamp, params[i].solver@))
}

/// The four selector bytes of a signature.
fn selector_bytes(signature: &str) -> (bytes: Vec<u8>)
    ensures
        bytes@ == selector(signature@),
{
    let hash = keccak256(signature.as_bytes());
    let mut bytes: Vec<u8> = Vec::new();
    bytes.push(hash[0]);
    bytes.push(hash[1]);
    bytes.push(hash[2]);
    bytes.push(hash[3]);
    assert(bytes@ =~= hash@.subrange(0, 4));
    bytes
}

/// The settler contract on the destination chain, where intents are filled.
pub struct IShinobiOutputSettler;

impl IShinobiOutputSettler {
    /// The calldata that fills an intent.
    pub fn fill_call(intent: &ShinobiIntentSol) -> (data: Vec<u8>)
        ensures
            data@ == fill_calldata(intent@),
    {
        let mut data = selector_bytes(FILL_SIGNATURE);
        let args = intent.abi_encode();
        append_bytes(&mut data, args.as_slice());
        data
    }
}

/// What an `Open` event says: an intent was opened under an order identifier.
#[derive(Debug, PartialEq, Eq)]
pub struct OpenEvent {
    pub order_id: [u8; 32],
    pub intent: ShinobiIntentSol,
}

/// Why the topics of a log are not those of an `Open` event, if they are not.
pub open spec fn open_topics_error(topics: Seq<[u8; 32]>) -> Option<Seq<char>> {
    if topics.len() < 2 {
        Some("topic list length mismatch"@)
    } else if topics[0]@ != signature_hash(OPEN_SIGNATURE@) {
        Some(
            "invalid signature hash for event \""@ + OPEN_SIGNATURE@ + "\": got "@ + hex_0x(
                topics[0]@,
            ) + ", expected "@ + hex_0x(signature_hash(OPEN_SIGNATURE@)),
        )
    } else {
        None
    }
}

/// What decoding a log as an `Open` event comes to: the intent that was opened, or what is wrong
/// with the log. The order identifier is the second topic.
pub open spec fn open_outcome(topics: Seq<[u8; 32]>, data: Seq<u8>) -> Result<
    IntentView,
    Seq<char>,
> {
    match open_topics_error(topics) {
        Some(why) => Err(why),
        None => decode_in(data, true),
    }
}

/// The settler contract on the origin chain, where funds are held in escrow.
pub struct IShinobiInputSettler;

impl IShinobiInputSettler {
    /// The calldata that finalises an intent: releases the escrow to the destination.
    pub fn finalise_call(
        intent: &ShinobiIntentSol,
        solve_params: &Vec<SolveParams>,
        destination: [u8; 32],
    ) -> (data: Vec<u8>)
        ensures
            data@ == finalise_calldata(
                intent@,
                solve_params_view(solve_params@),
                destination@,
            ),
    {
        let mut data = selector_bytes(FINALISE_SIGNATURE);
        let mut solves: Vec<(u32, [u8; 32])> = Vec::new();
        for i in 0..solve_params.len()
            invariant
                solves@.len() == i,
                forall|j: int|
                    0 <= j < i ==> (#[trigger] solves@[j]).0 == solve_params@[j].timestamp
                        && solves@[j].1@ == solve_params@[j].solver@,
        {
            solves.push((solve_params[i].timestamp, solve_params[i].solver));
        }
        assert(solves_view(solves@) =~= solve_params_view(solve_params@));
        let args = abi_encode_finalise(intent_to_wire(intent), solves, destination);
        append_bytes(&mut data, args.as_slice());
        data
    }

    /// The first topic of every `Open` event.
    pub fn open_signature_hash() -> (hash: [u8; 32])
        ensures
            hash@ == signature_hash(OPEN_SIGNATURE@),
    {
        keccak256(OPEN_SIGNATURE.as_bytes())
    }

    /// Checks the topics of a log: the event's own hash, then the order identifier. Topics
    /// behind these two are not looked at.
    pub fn check_open_topics(topics: &Vec<[u8; 32]>) -> (checked: Result<[u8; 32], String>)
        ensures
            match checked {
                Ok(order_id) => open_topics_error(topics@) is None && order_id@ == topics@[1]@,
                Err(e) => open_topics_error(topics@) == Some(e@),
            },
    {
        if topics.len() < 2 {
            return Err("topic list length mismatch".to_owned());
        }
        let expected = IShinobiInputSettler::open_signature_hash();
        if !same_bytes(&topics[0], &expected) {
            let mut message = "invalid signature hash for event \"".to_owned();
            message.append(OPEN_SIGNATURE);
            message.append("\": got ");
            message.append(hex_0x_text(&topics[0]).as_str());
            message.append(", expected ");
            message.append(hex_0x_text(&expected).as_str());
            return Err(message);
        }
        Ok(topics[1])
    }

    /// Decodes the topics and data of a log as an `Open` event.
    pub fn decode_open(topics: &Vec<[u8; 32]>, data: &[u8]) -> (event: Result<OpenEvent, String>)
        ensures
            match event {
                Ok(open) => open_outcome(topics@, data@) == Ok::<IntentView, Seq<char>>(
                    open.intent@,
                ) && open.order_id@ == topics@[1]@,
                Err(e) => open_outcome(topics@, data@) == Err::<IntentView, Seq<char>>(e@),
            },
            open_topics_error(topics@) is None ==> (words_outcome(data@) matches Ok(words)
                ==> words_sized(words)),
    {
        match IShinobiInputSettler::check_open_topics(topics) {
            Ok(order_id) => match decode_intent(data, true) {
                Ok(intent) => Ok(OpenEvent { order_id, intent }),
                Err(e) => Err(e),
            },
            Err(e) => Err(e),
        }
    }
}

// ---------------------------------------------------------------------------
// Laws
// ---------------------------------------------------------------------------
/// Taking an output to Solidity form and back gives the same output.
pub proof fn law_mandate_output_round_trip(output: RustMandateOutput)
    ensures
        <RustMandateOutput as FromSpec<MandateOutput>>::from_spec(
            <MandateOutput as FromSpec<RustMandateOutput>>::from_spec(output),
        ) == output,
{
}

/// Taking an intent to Solidity form and back gives the same intent, and the way back is always
/// open.
pub proof fn law_intent_round_trip(
    intent: ShinobiIntent,
    sol: ShinobiIntentSol,
    back: ShinobiIntent,
)
    requires
        call_ensures(
            <ShinobiIntentSol as From<ShinobiIntent>>::from,
            (intent,),
            sol,
        ),
        call_ensures(ShinobiIntent::from_sol, (sol,), back),
    ensures
        call_requires(ShinobiIntent::from_sol, (sol,)),
        back@ == intent@,
{
}

/// Decoding what was encoded succeeds and gives the same intent.
pub proof fn law_abi_round_trip(
    sol: ShinobiIntentSol,
    encoded: Vec<u8>,
    data: &[u8],
    decoded: Result<ShinobiIntentSol, String>,
)
    requires
        call_ensures(ShinobiIntentSol::abi_encode, (&sol,), encoded),
        data@ == encoded@,
        call_ensures(ShinobiIntentSol::abi_decode, (data,), decoded),
    ensures
        decoded matches Ok(back) && back@ == sol@,
{
}

/// Encoding what was decoded gives the same bytes.
pub proof fn law_abi_decoding_is_exact(
    data: &[u8],
    sol: ShinobiIntentSol,
    encoded: Vec<u8>,
)
    requires
        call_ensures(
            ShinobiIntentSol::abi_decode,
            (data,),
            Ok::<ShinobiIntentSol, String>(sol),
        ),
        call_ensures(ShinobiIntentSol::abi_encode, (&sol,), encoded),
    ensures
        encoded@ == data@,
{
}

} // verus!
