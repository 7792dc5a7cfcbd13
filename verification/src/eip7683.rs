//! The output of a cross-chain order: what is to be delivered, where and to whom.

use vstd::prelude::*;
use crate::bytes::{copy_bytes, pow256};
use crate::primitives::U256;

verus! {

/// An output as a mathematical value.
#[verifier::ext_equal]
pub struct MandateView {
    pub oracle: Seq<u8>,
    pub settler: Seq<u8>,
    pub chain_id: nat,
    pub token: Seq<u8>,
    pub amount: nat,
    pub recipient: Seq<u8>,
    pub call: Seq<u8>,
    pub context: Seq<u8>,
}

/// Whether the words of an output have thirty-two bytes, and its numbers fit in 256 bits.
pub open spec fn output_sized(output: MandateView) -> bool {
    &&& output.oracle.len() == 32
    &&& output.settler.len() == 32
    &&& output.chain_id < pow256(32)
    &&& output.token.len() == 32
    &&& output.amount < pow256(32)
    &&& output.recipient.len() == 32
}

/// Whether every output of a list is well sized.
pub open spec fn outputs_sized(outputs: Seq<MandateView>) -> bool {
    forall|i: int| 0 <= i < outputs.len() ==> output_sized(#[trigger] outputs[i])
}

/// An output that a solver has to deliver on its destination chain.
#[derive(Debug, PartialEq, Eq)]
pub struct MandateOutput {
    /// Oracle that proves the fill, as a 32-byte word.
    pub oracle: [u8; 32],
    /// Settler contract on the destination chain, as a 32-byte word.
    pub settler: [u8; 32],
    /// Destination chain.
    pub chain_id: U256,
    /// Token to deliver; the zero word stands for native ETH.
    pub token: [u8; 32],
    /// Amount to deliver.
    pub amount: U256,
    /// Receiver, as a 32-byte word.
    pub recipient: [u8; 32],
    /// Calldata for the receiver.
    pub call: Vec<u8>,
    /// Extra data for the settler.
    pub context: Vec<u8>,
}

impl View for MandateOutput {
    type V = MandateView;

    open spec fn view(&self) -> MandateView {
        MandateView {
            oracle: self.oracle@,
            settler: self.settler@,
            chain_id: self.chain_id@,
            token: self.token@,
            amount: self.amount@,
            recipient: self.recipient@,
            call: self.call@,
            context: self.context@,
        }
    }
}

/// A list of outputs as mathematical values.
pub open spec fn outputs_view(outputs: Seq<MandateOutput>) -> Seq<MandateView> {
    Seq::new(outputs.len(), |i: int| outputs[i]@)
}

impl Clone for MandateOutput {
    fn clone(&self) -> (copy: Self)
        ensures
            copy@ == self@,
    {
        MandateOutput {
            oracle: self.oracle,
            settler: self.settler,
            chain_id: self.chain_id,
            token: self.token,
            amount: self.amount,
            recipient: self.recipient,
            call: copy_bytes(self.call.as_slice()),
            context: copy_bytes(self.context.as_slice()),
        }
    }
}

/// A copy of a list of outputs.
pub fn copy_outputs(outputs: &Vec<MandateOutput>) -> (copy: Vec<MandateOutput>)
    ensures
        outputs_view(copy@) == outputs_view(outputs@),
{
    let mut copy: Vec<MandateOutput> = Vec::new();
    for i in 0..outputs.len()
        invariant
            copy@.len() == i,
            forall|j: int| 0 <= j < i ==> copy@[j]@ == #[trigger] outputs@[j]@,
    {
        copy.push(outputs[i].clone());
    }
    assert(outputs_view(copy@) =~= outputs_view(outputs@));
    copy
}

} // verus!
