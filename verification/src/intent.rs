//! The Shinobi intent: a cross-chain order with oracles in both directions and its own refund
//! logic.

use vstd::prelude::*;
use crate::abi::{
    abi_encode_identifier, abi_encode_outputs, abi_encoded_outputs, identifier_words, keccak256,
    keccak256_digest, outputs_encoding_unique,
};
use crate::bytes::{
    all_zero, append_bytes, be_bytes, copy_bytes, lemma_be_bytes_len, lemma_pow256_32,
    lemma_same_parts, pow256, zeros,
};
use crate::eip7683::{
    copy_outputs, MandateOutput, MandateView, output_sized, outputs_sized, outputs_view,
};
use crate::parsed::{
    AccountView, available_inputs_view, AvailableInput, AvailableInputView, InteropAddress,
    requested_outputs_view, RequestedOutput, RequestedOutputView,
};
use crate::primitives::{Address, address_word, lemma_word_injective, U256, word, zero_address};
use crate::settler::{outputs_to_sol, outputs_to_wire};
use crate::text::{
    bytes32_to_address, encode_hex, hex_0x, hex_0x_text, hex_text, law_word_address_reads_back,
    parse_address, SolverAddress, word_address,
};

verus! {

/// An intent as a mathematical value.
#[verifier::ext_equal]
pub struct IntentView {
    pub user: Seq<u8>,
    pub nonce: nat,
    pub origin_chain_id: nat,
    pub expires: u32,
    pub fill_deadline: u32,
    pub fill_oracle: Seq<u8>,
    pub inputs: Seq<(nat, nat)>,
    pub outputs: Seq<MandateView>,
    pub intent_oracle: Seq<u8>,
    pub refund_calldata: Seq<u8>,
}

/// A list of inputs as pairs of token number and amount.
pub open spec fn inputs_view(inputs: Seq<[U256; 2]>) -> Seq<(nat, nat)> {
    Seq::new(inputs.len(), |i: int| (inputs[i]@[0]@, inputs[i]@[1]@))
}

/// A Shinobi intent, for withdrawals and deposits alike.
#[derive(Debug, PartialEq)]
pub struct ShinobiIntent {
    /// Creator of the intent on the origin chain.
    pub user: Address,
    /// User nonce, for uniqueness.
    pub nonce: U256,
    /// Chain on which the intent was created.
    pub origin_chain_id: u64,
    /// Time from which a refund can be had.
    pub expires: u32,
    /// Deadline for filling the intent.
    pub fill_deadline: u32,
    /// Oracle that proves the fill to the origin chain.
    pub fill_oracle: Address,
    /// Tokens held in escrow, as pairs of token number and amount.
    pub inputs: Vec<[U256; 2]>,
    /// Outputs to be filled on the destination chain.
    pub outputs: Vec<MandateOutput>,
    /// Oracle that proves the creation of the intent to the destination chain.
    pub intent_oracle: Address,
    /// Custom refund call; empty for a plain transfer back to the user.
    pub refund_calldata: Vec<u8>,
}

impl View for ShinobiIntent {
    type V = IntentView;

    open spec fn view(&self) -> IntentView {
        IntentView {
            user: self.user@,
            nonce: self.nonce@,
            origin_chain_id: self.origin_chain_id as nat,
            expires: self.expires,
            fill_deadline: self.fill_deadline,
            fill_oracle: self.fill_oracle@,
            inputs: inputs_view(self.inputs@),
            outputs: outputs_view(self.outputs@),
            intent_oracle: self.intent_oracle@,
            refund_calldata: self.refund_calldata@,
        }
    }
}

/// A copy of a list of inputs.
pub fn copy_inputs(inputs: &Vec<[U256; 2]>) -> (copy: Vec<[U256; 2]>)
    ensures
        copy@ == inputs@,
{
    let mut copy: Vec<[U256; 2]> = Vec::new();
    for i in 0..inputs.len()
        invariant
            copy@ == inputs@.subrange(0, i as int),
    {
        copy.push(inputs[i]);
        assert(inputs@.subrange(0, i + 1) =~= inputs@.subrange(0, i as int).push(
            inputs@[i as int],
        ));
    }
    assert(inputs@.subrange(0, inputs@.len() as int) =~= inputs@);
    copy
}

impl Clone for ShinobiIntent {
    fn clone(&self) -> (copy: Self)
        ensures
            copy@ == self@,
    {
        ShinobiIntent {
            user: self.user,
            nonce: self.nonce,
            origin_chain_id: self.origin_chain_id,
            expires: self.expires,
            fill_deadline: self.fill_deadline,
            fill_oracle: self.fill_oracle,
            inputs: copy_inputs(&self.inputs),
            outputs: copy_outputs(&self.outputs),
            intent_oracle: self.intent_oracle,
            refund_calldata: copy_bytes(self.refund_calldata.as_slice()),
        }
    }
}

// ---------------------------------------------------------------------------
// Order identifier
// ---------------------------------------------------------------------------
/// The inputs in packed form: the two words of each, one after another.
pub open spec fn packed_inputs(inputs: Seq<(nat, nat)>) -> Seq<u8>
    decreases inputs.len(),
{
    if inputs.len() == 0 {
        Seq::empty()
    } else {
        packed_inputs(inputs.drop_last()) + word(inputs.last().0) + word(inputs.last().1)
    }
}

/// What the order identifier is the hash of: the plain fields in words of their own, the inputs,
/// outputs and refund call by their hashes.
pub open spec fn identifier_preimage(intent: IntentView) -> Seq<u8> {
    identifier_words(
        intent.user,
        word(intent.nonce),
        intent.origin_chain_id,
        intent.expires,
        intent.fill_deadline,
        intent.fill_oracle,
        keccak256_digest(packed_inputs(intent.inputs)),
        keccak256_digest(abi_encoded_outputs(intent.outputs)),
        intent.intent_oracle,
        keccak256_digest(intent.refund_calldata),
    )
}

/// The identifier of the order that an intent stands for.
pub open spec fn order_id_of(intent: IntentView) -> Seq<u8> {
    keccak256_digest(identifier_preimage(intent))
}

/// The inputs in packed form.
fn pack_inputs(inputs: &Vec<[U256; 2]>) -> (packed: Vec<u8>)
    ensures
        packed@ == packed_inputs(inputs_view(inputs@)),
{
    let mut packed: Vec<u8> = Vec::new();
    let ghost all = inputs_view(inputs@);
    for i in 0..inputs.len()
        invariant
            all == inputs_view(inputs@),
            packed@ == packed_inputs(all.subrange(0, i as int)),
    {
        let token = inputs[i][0].to_be_bytes();
        let amount = inputs[i][1].to_be_bytes();
        append_bytes(&mut packed, &token);
        append_bytes(&mut packed, &amount);
        assert(all.subrange(0, i + 1).drop_last() =~= all.subrange(0, i as int));
    }
    assert(all.subrange(0, inputs@.len() as int) =~= all);
    packed
}

// ---------------------------------------------------------------------------
// Reading an intent
// ---------------------------------------------------------------------------
/// Why an intent is not well formed, if it is not.
pub open spec fn intent_error(intent: IntentView) -> Option<Seq<char>> {
    if intent.user == zero_address() {
        Some("Invalid user: zero address"@)
    } else if intent.inputs.len() == 0 {
        Some("Invalid inputs: must have at least one input"@)
    } else if intent.outputs.len() == 0 {
        Some("Invalid outputs: must have at least one output"@)
    } else if intent.intent_oracle == zero_address() {
        Some("Invalid intent oracle: zero address"@)
    } else if intent.fill_oracle == zero_address() {
        Some("Invalid fill oracle: zero address"@)
    } else {
        None
    }
}

/// Whether the first output is to be paid in native ETH.
pub open spec fn pays_native_eth(intent: IntentView) -> bool {
    intent.outputs.len() > 0 && intent.outputs[0].token == zeros(32)
}

/// Whether the chain of the first output, if there is an output, has an identifier of 64 bits.
pub open spec fn destination_fits(intent: IntentView) -> bool {
    intent.outputs.len() > 0 ==> intent.outputs[0].chain_id <= u64::MAX
}

/// The chain of the first output, if there is an output.
pub open spec fn destination_of(intent: IntentView) -> Option<u64> {
    if intent.outputs.len() > 0 {
        Some(intent.outputs[0].chain_id as u64)
    } else {
        None
    }
}

/// A chain identifier as a 64-bit number, or zero where it does not fit.
pub open spec fn chain_or_zero(chain_id: nat) -> u64 {
    if chain_id <= u64::MAX {
        chain_id as u64
    } else {
        0
    }
}

/// What an intent offers: each input on the origin chain, without a lock.
pub open spec fn offered(intent: IntentView) -> Seq<AvailableInputView> {
    Seq::new(
        intent.inputs.len(),
        |i: int|
            AvailableInputView {
                user: AccountView {
                    chain_id: intent.origin_chain_id as u64,
                    address: intent.user,
                },
                asset: AccountView {
                    chain_id: intent.origin_chain_id as u64,
                    address: word_address(word(intent.inputs[i].0)),
                },
                amount: intent.inputs[i].1,
                lock: None,
            },
    )
}

/// One output as it is asked for.
pub open spec fn requested_output(output: MandateView) -> RequestedOutputView {
    RequestedOutputView {
        receiver: AccountView {
            chain_id: chain_or_zero(output.chain_id),
            address: word_address(output.recipient),
        },
        asset: AccountView {
            chain_id: chain_or_zero(output.chain_id),
            address: word_address(output.token),
        },
        amount: output.amount,
        calldata: if output.call.len() == 0 {
            None
        } else {
            Some(hex_text(output.call))
        },
    }
}

/// What an intent asks for, output by output.
pub open spec fn requested(intent: IntentView) -> Seq<RequestedOutputView> {
    Seq::new(intent.outputs.len(), |i: int| requested_output(intent.outputs[i]))
}

/// The address in a 32-byte word, as an account of the solver.
fn account_in_word(bytes32: &[u8; 32]) -> (address: SolverAddress)
    ensures
        address@ == word_address(bytes32@),
{
    let text = bytes32_to_address(bytes32);
    proof {
        law_word_address_reads_back(bytes32@);
    }
    match parse_address(text.as_str()) {
        Ok(address) => address,
        Err(_) => SolverAddress(vec![0u8; 20]),
    }
}

impl ShinobiIntent {
    /// The identifier of the order: the hash of the intent's fields, as the settler contracts
    /// compute it. No other outputs go into it in the same way as those of this intent.
    pub fn order_identifier(&self) -> (id: [u8; 32])
        ensures
            id@ == order_id_of(self@),
            outputs_encoding_unique(abi_encoded_outputs(self@.outputs), self@.outputs),
    {
        let packed = pack_inputs(&self.inputs);
        let inputs_hash = keccak256(packed.as_slice());
        let sol_outputs = outputs_to_sol(&self.outputs);
        let encoded_outputs = abi_encode_outputs(outputs_to_wire(&sol_outputs));
        let outputs_hash = keccak256(encoded_outputs.as_slice());
        let refund_hash = keccak256(self.refund_calldata.as_slice());
        let encoded = abi_encode_identifier(
            self.user.bytes,
            self.nonce.to_be_bytes(),
            self.origin_chain_id,
            self.expires,
            self.fill_deadline,
            self.fill_oracle.bytes,
            inputs_hash,
            outputs_hash,
            self.intent_oracle.bytes,
            refund_hash,
        );
        keccak256(encoded.as_slice())
    }

    /// Checks the structure of the intent: a user, at least one input and one output, and both
    /// oracles. The refund call may be empty. Times are checked elsewhere.
    pub fn validate(&self) -> (checked: Result<(), String>)
        ensures
            match checked {
                Ok(_) => intent_error(self@) is None,
                Err(e) => intent_error(self@) == Some(e@),
            },
    {
        if self.user.is_zero() {
            return Err("Invalid user: zero address".to_owned());
        }
        if self.inputs.len() == 0 {
            return Err("Invalid inputs: must have at least one input".to_owned());
        }
        if self.outputs.len() == 0 {
            return Err("Invalid outputs: must have at least one output".to_owned());
        }
        if self.intent_oracle.is_zero() {
            return Err("Invalid intent oracle: zero address".to_owned());
        }
        if self.fill_oracle.is_zero() {
            return Err("Invalid fill oracle: zero address".to_owned());
        }
        Ok(())
    }

    /// Whether this is a withdrawal: the origin is Ethereum mainnet.
    pub fn is_withdrawal(&self) -> (withdrawal: bool)
        ensures
            withdrawal == (self@.origin_chain_id == 1),
    {
        self.origin_chain_id == 1
    }

    /// Whether this is a deposit: the origin is another chain than Ethereum mainnet.
    pub fn is_deposit(&self) -> (deposit: bool)
        ensures
            deposit == (self@.origin_chain_id != 1),
    {
        !self.is_withdrawal()
    }

    /// The chain of the first output, if there is an output.
    pub fn destination_chain_id(&self) -> (chain: Option<u64>)
        requires
            destination_fits(self@),
        ensures
            chain == destination_of(self@),
    {
        if self.outputs.len() == 0 {
            None
        } else {
            assert(self@.outputs[0] == self.outputs@[0]@);
            Some(self.outputs[0].chain_id.to_u64())
        }
    }

    /// Whether the first output is to be paid in native ETH, the zero token.
    pub fn is_native_eth_output(&self) -> (native: bool)
        ensures
            native == pays_native_eth(self@),
    {
        if self.outputs.len() == 0 {
            false
        } else {
            assert(self@.outputs[0] == self.outputs@[0]@);
            all_zero(&self.outputs[0].token)
        }
    }

    /// The amount of the first output, if there is an output.
    pub fn output_amount(&self) -> (amount: Option<U256>)
        ensures
            match amount {
                Some(a) => self@.outputs.len() > 0 && a@ == self@.outputs[0].amount,
                None => self@.outputs.len() == 0,
            },
    {
        if self.outputs.len() == 0 {
            None
        } else {
            assert(self@.outputs[0] == self.outputs@[0]@);
            Some(self.outputs[0].amount)
        }
    }

    /// The inputs that the intent offers. The token number of an input is the address of its
    /// token; zero is native ETH.
    pub fn parse_available_inputs(&self) -> (inputs: Vec<AvailableInput>)
        ensures
            available_inputs_view(inputs@) == offered(self@),
    {
        let mut inputs: Vec<AvailableInput> = Vec::new();
        for i in 0..self.inputs.len()
            invariant
                inputs@.len() == i,
                forall|j: int| 0 <= j < i ==> (#[trigger] inputs@[j])@ == offered(self@)[j],
        {
            let token_word = self.inputs[i][0].to_be_bytes();
            let asset = InteropAddress::from(
                (self.origin_chain_id, account_in_word(&token_word)),
            );
            let user = InteropAddress::from(
                (self.origin_chain_id, SolverAddress(self.user.to_vec())),
            );
            assert(self@.inputs[i as int] == (
                self.inputs@[i as int]@[0]@,
                self.inputs@[i as int]@[1]@,
            ));
            inputs.push(AvailableInput { user, asset, amount: self.inputs[i][1], lock: None });
        }
        assert(available_inputs_view(inputs@) =~= offered(self@));
        inputs
    }

    /// The outputs that the intent asks for.
    pub fn parse_requested_outputs(&self) -> (outputs: Vec<RequestedOutput>)
        ensures
            requested_outputs_view(outputs@) == requested(self@),
    {
        let mut outputs: Vec<RequestedOutput> = Vec::new();
        for i in 0..self.outputs.len()
            invariant
                outputs@.len() == i,
                forall|j: int| 0 <= j < i ==> (#[trigger] outputs@[j])@ == requested(self@)[j],
        {
            let output = &self.outputs[i];
            let chain_id: u64 = match output.chain_id.try_to_u64() {
                Some(chain_id) => chain_id,
                None => 0,
            };
            let asset = InteropAddress::from((chain_id, account_in_word(&output.token)));
            let receiver = InteropAddress::from((chain_id, account_in_word(&output.recipient)));
            let calldata = if output.call.len() == 0 {
                None
            } else {
                Some(encode_hex(output.call.as_slice()))
            };
            assert(self@.outputs[i as int] == output@);
            outputs.push(RequestedOutput { receiver, asset, amount: output.amount, calldata });
        }
        assert(requested_outputs_view(outputs@) =~= requested(self@));
        outputs
    }

    /// How the inputs are locked: always in the settler's own escrow.
    pub fn parse_lock_type(&self) -> (lock_type: Option<String>)
        ensures
            lock_type matches Some(t) && t@ == "native_escrow"@,
    {
        Some("native_escrow".to_owned())
    }

    /// The oracle that the origin chain asks about fills, as a string.
    pub fn input_oracle(&self) -> (oracle: String)
        ensures
            oracle@ == hex_0x(self@.fill_oracle),
    {
        hex_0x_text(&self.fill_oracle.bytes)
    }

    /// The chain on which the intent was created.
    pub fn origin_chain_id(&self) -> (chain: u64)
        ensures
            chain == self@.origin_chain_id,
    {
        self.origin_chain_id
    }

    /// The chain of each output, or zero where its identifier does not fit in 64 bits.
    pub fn destination_chain_ids(&self) -> (chains: Vec<u64>)
        ensures
            chains@ == Seq::new(
                self@.outputs.len(),
                |i: int| chain_or_zero(self@.outputs[i].chain_id),
            ),
    {
        let mut chains: Vec<u64> = Vec::new();
        for i in 0..self.outputs.len()
            invariant
                chains@.len() == i,
                forall|j: int|
                    0 <= j < i ==> #[trigger] chains@[j] == chain_or_zero(
                        self.outputs@[j].chain_id@,
                    ),
        {
            chains.push(
                match self.outputs[i].chain_id.try_to_u64() {
                    Some(chain_id) => chain_id,
                    None => 0,
                },
            );
        }
        assert(chains@ =~= Seq::new(
            self@.outputs.len(),
            |i: int| chain_or_zero(self@.outputs[i].chain_id),
        ));
        chains
    }
}

// ---------------------------------------------------------------------------
// Laws
// ---------------------------------------------------------------------------
/// Whether addresses have twenty bytes, words thirty-two, and numbers fit in 256 bits.
pub open spec fn well_sized(intent: IntentView) -> bool {
    &&& intent.user.len() == 20
    &&& intent.fill_oracle.len() == 20
    &&& intent.intent_oracle.len() == 20
    &&& intent.nonce < pow256(32)
    &&& intent.origin_chain_id < pow256(32)
    &&& forall|i: int|
        0 <= i < intent.inputs.len() ==> (#[trigger] intent.inputs[i]).0 < pow256(32)
            && intent.inputs[i].1 < pow256(32)
    &&& outputs_sized(intent.outputs)
}

/// Every intent is well sized.
pub proof fn lemma_intent_well_sized(intent: ShinobiIntent)
    ensures
        well_sized(intent@),
{
    lemma_pow256_32();
    let v = intent@;
    assert forall|i: int| 0 <= i < v.inputs.len() implies (#[trigger] v.inputs[i]).0 < pow256(32)
        && v.inputs[i].1 < pow256(32) by {
        assert(v.inputs[i] == (intent.inputs@[i]@[0]@, intent.inputs@[i]@[1]@));
    }
    assert forall|i: int| 0 <= i < v.outputs.len() implies output_sized(
        #[trigger] v.outputs[i],
    ) by {
        assert(v.outputs[i] == intent.outputs@[i]@);
    }
}

/// Addresses are told apart by their words.
proof fn lemma_address_word_injective(a: Seq<u8>, b: Seq<u8>)
    requires
        a.len() == 20,
        b.len() == 20,
        address_word(a) == address_word(b),
    ensures
        a == b,
{
    lemma_same_parts(zeros(12), a, zeros(12), b);
}

/// The hashed bytes of an order identifier determine every field of the intent: the plain fields
/// themselves, and the hashes of inputs, outputs and refund call.
pub proof fn law_identifier_preimage_determines_fields(a: IntentView, b: IntentView)
    requires
        well_sized(a),
        well_sized(b),
        identifier_preimage(a) == identifier_preimage(b),
    ensures
        a.user == b.user,
        a.nonce == b.nonce,
        a.origin_chain_id == b.origin_chain_id,
        a.expires == b.expires,
        a.fill_deadline == b.fill_deadline,
        a.fill_oracle == b.fill_oracle,
        a.intent_oracle == b.intent_oracle,
        keccak256_digest(packed_inputs(a.inputs)) == keccak256_digest(packed_inputs(b.inputs)),
        keccak256_digest(abi_encoded_outputs(a.outputs)) == keccak256_digest(
            abi_encoded_outputs(b.outputs),
        ),
        keccak256_digest(a.refund_calldata) == keccak256_digest(b.refund_calldata),
{
    let (a0, b0) = (address_word(a.user), address_word(b.user));
    let (a1, b1) = (a0 + word(a.nonce), b0 + word(b.nonce));
    let (a2, b2) = (a1 + word(a.origin_chain_id), b1 + word(b.origin_chain_id));
    let (a3, b3) = (a2 + word(a.expires as nat), b2 + word(b.expires as nat));
    let (a4, b4) = (a3 + word(a.fill_deadline as nat), b3 + word(b.fill_deadline as nat));
    let (a5, b5) = (a4 + address_word(a.fill_oracle), b4 + address_word(b.fill_oracle));
    let (ai, bi) = (
        keccak256_digest(packed_inputs(a.inputs)),
        keccak256_digest(packed_inputs(b.inputs)),
    );
    let (ao, bo) = (
        keccak256_digest(abi_encoded_outputs(a.outputs)),
        keccak256_digest(abi_encoded_outputs(b.outputs)),
    );
    let (a6, b6) = (a5 + ai, b5 + bi);
    let (a7, b7) = (a6 + ao, b6 + bo);
    let (a8, b8) = (a7 + address_word(a.intent_oracle), b7 + address_word(b.intent_oracle));
    lemma_word_len(a);
    lemma_word_len(b);
    lemma_same_parts(
        a8,
        keccak256_digest(a.refund_calldata),
        b8,
        keccak256_digest(b.refund_calldata),
    );
    lemma_same_parts(
        a7,
        address_word(a.intent_oracle),
        b7,
        address_word(b.intent_oracle),
    );
    lemma_same_parts(a6, ao, b6, bo);
    lemma_same_parts(a5, ai, b5, bi);
    lemma_same_parts(
        a4,
        address_word(a.fill_oracle),
        b4,
        address_word(b.fill_oracle),
    );
    lemma_same_parts(
        a3,
        word(a.fill_deadline as nat),
        b3,
        word(b.fill_deadline as nat),
    );
    lemma_same_parts(a2, word(a.expires as nat), b2, word(b.expires as nat));
    lemma_same_parts(a1, word(a.origin_chain_id), b1, word(b.origin_chain_id));
    lemma_same_parts(a0, word(a.nonce), b0, word(b.nonce));
    lemma_pow256_32();
    lemma_address_word_injective(a.user, b.user);
    lemma_address_word_injective(a.fill_oracle, b.fill_oracle);
    lemma_address_word_injective(a.intent_oracle, b.intent_oracle);
    lemma_word_injective(a.nonce, b.nonce);
    lemma_word_injective(a.origin_chain_id, b.origin_chain_id);
    lemma_word_injective(a.expires as nat, b.expires as nat);
    lemma_word_injective(a.fill_deadline as nat, b.fill_deadline as nat);
}

/// The words of the plain numbers of an intent have thirty-two bytes.
proof fn lemma_word_len(v: IntentView)
    ensures
        word(v.nonce).len() == 32,
        word(v.origin_chain_id).len() == 32,
        word(v.expires as nat).len() == 32,
        word(v.fill_deadline as nat).len() == 32,
{
    lemma_be_bytes_len(v.nonce, 32);
    lemma_be_bytes_len(v.origin_chain_id, 32);
    lemma_be_bytes_len(v.expires as nat, 32);
    lemma_be_bytes_len(v.fill_deadline as nat, 32);
}

/// The packed form determines the inputs.
pub proof fn law_packed_inputs_determine_inputs(a: Seq<(nat, nat)>, b: Seq<(nat, nat)>)
    requires
        forall|i: int|
            0 <= i < a.len() ==> (#[trigger] a[i]).0 < pow256(32) && a[i].1 < pow256(32),
        forall|i: int|
            0 <= i < b.len() ==> (#[trigger] b[i]).0 < pow256(32) && b[i].1 < pow256(32),
        packed_inputs(a) == packed_inputs(b),
    ensures
        a == b,
    decreases a.len(),
{
    lemma_packed_len(a);
    lemma_packed_len(b);
    if a.len() > 0 {
        let (x, y) = (a.last(), b.last());
        lemma_be_bytes_len(x.0, 32);
        lemma_be_bytes_len(x.1, 32);
        lemma_be_bytes_len(y.0, 32);
        lemma_be_bytes_len(y.1, 32);
        let (p, q) = (packed_inputs(a.drop_last()), packed_inputs(b.drop_last()));
        lemma_same_parts(p + word(x.0), word(x.1), q + word(y.0), word(y.1));
        lemma_same_parts(p, word(x.0), q, word(y.0));
        assert(a[a.len() - 1] == x && b[b.len() - 1] == y);
        lemma_word_injective(x.0, y.0);
        lemma_word_injective(x.1, y.1);
        law_packed_inputs_determine_inputs(a.drop_last(), b.drop_last());
        assert(a =~= a.drop_last().push(x));
        assert(b =~= b.drop_last().push(y));
    } else {
        assert(a =~= b);
    }
}

/// Each input takes sixty-four bytes in packed form.
proof fn lemma_packed_len(inputs: Seq<(nat, nat)>)
    ensures
        packed_inputs(inputs).len() == 64 * inputs.len(),
    decreases inputs.len(),
{
    if inputs.len() > 0 {
        lemma_packed_len(inputs.drop_last());
        lemma_be_bytes_len(inputs.last().0, 32);
        lemma_be_bytes_len(inputs.last().1, 32);
    }
}

/// Intents with the same contents have the same order identifier.
pub proof fn law_order_identifier_deterministic(a: ShinobiIntent, b: ShinobiIntent)
    requires
        a@ == b@,
    ensures
        order_id_of(a@) == order_id_of(b@),
{
}

/// Whether the hash tells two byte strings apart, if they differ.
pub open spec fn no_collision(a: Seq<u8>, b: Seq<u8>) -> bool {
    keccak256_digest(a) == keccak256_digest(b) ==> a == b
}

/// The order identifier is unique: two intents have the same one exactly if they are the same in
/// every field, down to the call and context of every output and the order of inputs and outputs,
/// unless the hash collides on the bytes that the two identifiers are made from.
pub proof fn law_order_identifier_is_unique(
    a: ShinobiIntent,
    b: ShinobiIntent,
    a_id: [u8; 32],
    b_id: [u8; 32],
)
    requires
        call_ensures(ShinobiIntent::order_identifier, (&a,), a_id),
        call_ensures(ShinobiIntent::order_identifier, (&b,), b_id),
        no_collision(identifier_preimage(a@), identifier_preimage(b@)),
        no_collision(packed_inputs(a@.inputs), packed_inputs(b@.inputs)),
        no_collision(abi_encoded_outputs(a@.outputs), abi_encoded_outputs(b@.outputs)),
        no_collision(a@.refund_calldata, b@.refund_calldata),
    ensures
        a_id@ == b_id@ <==> a@ == b@,
{
    lemma_intent_well_sized(a);
    lemma_intent_well_sized(b);
    if a_id@ == b_id@ {
        law_identifier_preimage_determines_fields(a@, b@);
        law_packed_inputs_determine_inputs(a@.inputs, b@.inputs);
        assert(a@ =~= b@);
    }
}

/// Exchanging two different oracles changes the order identifier, unless the hash collides on the
/// bytes that the two identifiers are made from.
pub proof fn law_exchanged_oracles_change_order_identifier(a: ShinobiIntent, b: ShinobiIntent)
    requires
        a@.fill_oracle != a@.intent_oracle,
        b@ == (IntentView {
            fill_oracle: a@.intent_oracle,
            intent_oracle: a@.fill_oracle,
            ..a@
        }),
        no_collision(identifier_preimage(a@), identifier_preimage(b@)),
    ensures
        order_id_of(a@) != order_id_of(b@),
{
    lemma_intent_well_sized(a);
    lemma_intent_well_sized(b);
    if order_id_of(a@) == order_id_of(b@) {
        law_identifier_preimage_determines_fields(a@, b@);
    }
}

/// Intents with different nonces have different order identifiers, unless the hash collides on
/// the very bytes that the two identifiers are made from.
pub proof fn law_nonce_changes_order_identifier(a: ShinobiIntent, b: ShinobiIntent)
    requires
        a@.nonce != b@.nonce,
        no_collision(identifier_preimage(a@), identifier_preimage(b@)),
    ensures
        order_id_of(a@) != order_id_of(b@),
{
    lemma_intent_well_sized(a);
    lemma_intent_well_sized(b);
    if order_id_of(a@) == order_id_of(b@) {
        law_identifier_preimage_determines_fields(a@, b@);
    }
}

/// Every intent is either a withdrawal or a deposit, and never both.
pub proof fn law_withdrawal_or_deposit(intent: ShinobiIntent, withdrawal: bool, deposit: bool)
    requires
        call_ensures(ShinobiIntent::is_withdrawal, (&intent,), withdrawal),
        call_ensures(ShinobiIntent::is_deposit, (&intent,), deposit),
    ensures
        withdrawal != deposit,
{
}

/// A well-formed intent has a destination.
pub proof fn law_valid_intent_has_destination(intent: IntentView)
    requires
        intent_error(intent) is None,
    ensures
        destination_of(intent) is Some,
        intent.inputs.len() > 0,
{
}

/// Where the chain identifiers fit in 64 bits, what is asked for first is on the destination
/// chain of the intent.
pub proof fn law_first_request_is_on_destination(intent: IntentView)
    requires
        intent.outputs.len() > 0,
        destination_fits(intent),
    ensures
        destination_of(intent) == Some(requested(intent)[0].receiver.chain_id),
        destination_of(intent) == Some(requested(intent)[0].asset.chain_id),
{
}

/// A native ETH output names the zero address as its token, and every input of token number
/// zero does too.
pub proof fn law_zero_token_is_zero_address(intent: IntentView, i: int)
    requires
        0 <= i < intent.inputs.len(),
    ensures
        pays_native_eth(intent) ==> requested(intent)[0].asset.address == zero_address(),
        intent.inputs[i].0 == 0 ==> offered(intent)[i].asset.address == zero_address(),
{
    if pays_native_eth(intent) {
        assert(word_address(zeros(32)) =~= zero_address());
    }
    if intent.inputs[i].0 == 0 {
        lemma_zero_word(32);
        assert(word_address(zeros(32)) =~= zero_address());
    }
}

/// The bytes of zero are zeros.
proof fn lemma_zero_word(len: nat)
    ensures
        be_bytes(0, len) == zeros(len),
    decreases len,
{
    if len > 0 {
        lemma_zero_word((len - 1) as nat);
        assert(zeros(len) =~= zeros((len - 1) as nat).push(0));
    } else {
        assert(zeros(0) =~= Seq::<u8>::empty());
    }
}

} // verus!
