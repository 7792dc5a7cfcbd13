//! What an order offers and asks for, in terms that are the same for every order standard.

use vstd::prelude::*;
use crate::primitives::U256;
use crate::text::SolverAddress;

verus! {

/// An account on a chain.
#[derive(Debug, Clone, PartialEq, Eq)]
pub struct InteropAddress {
    pub chain_id: u64,
    pub address: SolverAddress,
}

/// An account on a chain as a mathematical value.
#[verifier::ext_equal]
pub struct AccountView {
    pub chain_id: u64,
    pub address: Seq<u8>,
}

impl View for InteropAddress {
    type V = AccountView;

    open spec fn view(&self) -> AccountView {
        AccountView { chain_id: self.chain_id, address: self.address@ }
    }
}

impl From<(u64, SolverAddress)> for InteropAddress {
    fn from(pair: (u64, SolverAddress)) -> (account: Self) {
        InteropAddress { chain_id: pair.0, address: pair.1 }
    }
}

impl vstd::std_specs::convert::FromSpecImpl<(u64, SolverAddress)> for InteropAddress {
    open spec fn obeys_from_spec() -> bool {
        true
    }

    open spec fn from_spec(pair: (u64, SolverAddress)) -> Self {
        InteropAddress { chain_id: pair.0, address: pair.1 }
    }
}

/// An input that a user has put up.
#[derive(Debug, Clone, PartialEq, Eq)]
pub struct AvailableInput {
    /// Who put it up.
    pub user: InteropAddress,
    /// Which token it is.
    pub asset: InteropAddress,
    /// How much of it.
    pub amount: U256,
    /// The lock that holds it, where there is one.
    pub lock: Option<String>,
}

/// An input as a mathematical value.
#[verifier::ext_equal]
pub struct AvailableInputView {
    pub user: AccountView,
    pub asset: AccountView,
    pub amount: nat,
    pub lock: Option<Seq<char>>,
}

impl View for AvailableInput {
    type V = AvailableInputView;

    open spec fn view(&self) -> AvailableInputView {
        AvailableInputView {
            user: self.user@,
            asset: self.asset@,
            amount: self.amount@,
            lock: optional_text(self.lock),
        }
    }
}

/// An output that a user asks for.
#[derive(Debug, Clone, PartialEq, Eq)]
pub struct RequestedOutput {
    /// Who is to receive it.
    pub receiver: InteropAddress,
    /// Which token it is.
    pub asset: InteropAddress,
    /// How much of it.
    pub amount: U256,
    /// The call to make with it, in hexadecimal, where there is one.
    pub calldata: Option<String>,
}

/// An output asked for as a mathematical value.
#[verifier::ext_equal]
pub struct RequestedOutputView {
    pub receiver: AccountView,
    pub asset: AccountView,
    pub amount: nat,
    pub calldata: Option<Seq<char>>,
}

impl View for RequestedOutput {
    type V = RequestedOutputView;

    open spec fn view(&self) -> RequestedOutputView {
        RequestedOutputView {
            receiver: self.receiver@,
            asset: self.asset@,
            amount: self.amount@,
            calldata: optional_text(self.calldata),
        }
    }
}

/// An optional string as a mathematical value.
pub open spec fn optional_text(text: Option<String>) -> Option<Seq<char>> {
    match text {
        Some(t) => Some(t@),
        None => None,
    }
}

/// A list of inputs as mathematical values.
pub open spec fn available_inputs_view(inputs: Seq<AvailableInput>) -> Seq<AvailableInputView> {
    Seq::new(inputs.len(), |i: int| inputs[i]@)
}

/// A list of outputs asked for as mathematical values.
pub open spec fn requested_outputs_view(outputs: Seq<RequestedOutput>) -> Seq<
    RequestedOutputView,
> {
    Seq::new(outputs.len(), |i: int| outputs[i]@)
}

} // verus!
