//! What holds of an intent on its whole way: from its discovery to the transactions for it.

pub mod encoding;
pub mod intents;
pub mod orders;
pub mod reach;
pub mod tables;
pub mod values;
pub mod watching;

use vstd::prelude::*;
use crate::discovery::{DiscoveryError, ShinobiDiscovery};
use crate::intent::{destination_of, ShinobiIntent};
use crate::order::{law_created_order_reads_back, OrderDraft, OrderError, ShinobiOrderImpl};
use crate::settler::{FILL_SIGNATURE, selector, ShinobiIntentSol};
use crate::text::SolverAddress;
use crate::types::{ExecutionParams, FillProof, Intent, optional_intent, Order, Transaction};

verus! {

/// An order that is drafted from the bytes of a discovered intent is for that very intent.
pub proof fn law_discovered_intent_is_drafted_unchanged(
    discovery: ShinobiDiscovery,
    order_id: [u8; 32],
    sol: ShinobiIntentSol,
    discovered_at: u64,
    found: Intent,
    order_impl: ShinobiOrderImpl,
    bytes: &[u8],
    now: u64,
    draft: OrderDraft,
)
    requires
        call_ensures(
            ShinobiDiscovery::convert_to_intent,
            (&discovery, order_id, sol, discovered_at),
            Ok::<Intent, DiscoveryError>(found),
        ),
        bytes@ == found.order_bytes@,
        call_ensures(
            ShinobiOrderImpl::prepare_order,
            (&order_impl, bytes, now),
            Ok::<OrderDraft, OrderError>(draft),
        ),
    ensures
        found.data@ == sol@,
        draft.intent@ == sol@,
        draft.order_bytes@ == found.order_bytes@,
{
}

/// The fill of an order hands the settler the very bytes that the order was made from, on the
/// destination chain of the intent; the claim goes to the chain where the intent was opened.
pub proof fn law_order_is_settled_as_it_was_made(
    order_impl: ShinobiOrderImpl,
    bytes: &[u8],
    drafted_at: u64,
    draft: OrderDraft,
    id: Vec<u8>,
    given: Option<ShinobiIntent>,
    solver: SolverAddress,
    created_at: u64,
    order: Order,
    params: ExecutionParams,
    filled_at: u64,
    fill: Transaction,
    fill_proof: FillProof,
    claim: Transaction,
)
    requires
        call_ensures(
            ShinobiOrderImpl::prepare_order,
            (&order_impl, bytes, drafted_at),
            Ok::<OrderDraft, OrderError>(draft),
        ),
        call_ensures(
            ShinobiOrderImpl::finish_order,
            (&order_impl, draft, Ok::<Vec<u8>, String>(id), given, &solver, created_at),
            Ok::<Order, OrderError>(order),
        ),
        call_ensures(
            ShinobiOrderImpl::generate_fill_transaction,
            (&order_impl, &order, &params, filled_at),
            Ok::<Transaction, OrderError>(fill),
        ),
        call_ensures(
            ShinobiOrderImpl::generate_claim_transaction,
            (&order_impl, &order, &fill_proof),
            Ok::<Transaction, OrderError>(claim),
        ),
    ensures
        fill@.data == selector(FILL_SIGNATURE@) + bytes@,
        destination_of(draft.intent@) == Some(fill@.chain_id),
        fill@.chain_id == order@.output_chains[0].0,
        fill@.to == Some(order@.output_chains[0].1),
        claim@.chain_id == draft.intent@.origin_chain_id,
        claim@.chain_id == order@.input_chains[0].0,
        claim@.to == Some(order@.input_chains[0].1),
        claim@.value == 0,
{
    law_created_order_reads_back(
        draft@,
        id@,
        optional_intent(given),
        solver@,
        created_at,
    );
}

} // verus!
