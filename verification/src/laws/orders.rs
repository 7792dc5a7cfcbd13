//! What becomes of an order: which intents are accepted, and what the transactions for them hold.

use vstd::prelude::*;
use vstd::utf8::encode_utf8;
use crate::abi::{abi_encoded_finalise, abi_encoded_words, keccak256_of, WordsView};
use crate::intent::ShinobiIntent;
use crate::laws::encoding::{
    inputs_are, lemma_same_intent, lemma_words_hold, output_is, same_intent, words_hold,
};
use crate::laws::intents::{all_zeros, lemma_all_zeros};
use crate::order::{
    destination_oracle, draft_of, DraftView, OrderDraft, OrderError, OrderRules, origin_oracle,
    outcome, report_decoded, ShinobiOrderImpl,
};
use crate::primitives::{Address, address_word, U256};
use crate::settler::{FILL_SIGNATURE, FINALISE_SIGNATURE, ShinobiIntentSol};
use crate::text::{decimal, hex_bytes, hex_error_text, hex_text, SolverAddress};
use crate::types::{
    ExecutionParams, FillProof, has_route, Order, OracleRoutes, OracleView, OrderStatus,
    Transaction, TransactionView,
};

verus! {

/// Intents with the same contents have the same words.
pub proof fn lemma_same_words(words: WordsView, a: ShinobiIntent, b: ShinobiIntent)
    requires
        a@ == b@,
        words_hold(words, a),
    ensures
        words_hold(words, b),
{
    assert(a@.inputs.len() == a.inputs@.len() && b@.inputs.len() == b.inputs@.len());
    assert(a@.outputs.len() == a.outputs@.len() && b@.outputs.len() == b.outputs@.len());
    assert(inputs_are(words.inputs, a.inputs@));
    assert(a.user.bytes@ =~= b.user.bytes@);
    assert(a.fill_oracle.bytes@ =~= b.fill_oracle.bytes@);
    assert(a.intent_oracle.bytes@ =~= b.intent_oracle.bytes@);
    assert forall|i: int| 0 <= i < b.inputs@.len() implies #[trigger] words.inputs[i] == (
        b.inputs@[i]@[0]@,
        b.inputs@[i]@[1]@,
    ) by {
        assert(a@.inputs[i] == b@.inputs[i]);
        assert(a@.inputs[i] == (a.inputs@[i]@[0]@, a.inputs@[i]@[1]@));
        assert(b@.inputs[i] == (b.inputs@[i]@[0]@, b.inputs@[i]@[1]@));
    }
    assert forall|i: int| 0 <= i < b.outputs@.len() implies output_is(
        #[trigger] words.outputs[i],
        b.outputs@[i],
    ) by {
        assert(a@.outputs[i] == b@.outputs[i]);
        assert(output_is(words.outputs[i], a.outputs@[i]));
    }
}

// ---------------------------------------------------------------------------
// Acceptance
// ---------------------------------------------------------------------------
/// Whether a route leads from one oracle on its chain to another.
pub open spec fn route_at(
    routes: Seq<(OracleView, Seq<OracleView>)>,
    i: int,
    j: int,
    from_chain: u64,
    from: Seq<u8>,
    to_chain: nat,
    to: Seq<u8>,
) -> bool {
    &&& 0 <= i < routes.len()
    &&& routes[i].0.chain_id == from_chain
    &&& routes[i].0.oracle == from
    &&& 0 <= j < routes[i].1.len()
    &&& routes[i].1[j].chain_id == to_chain
    &&& routes[i].1[j].oracle == to
}

/// Routes are looked up oracle by oracle.
proof fn lemma_route(
    routes: Seq<(OracleView, Seq<OracleView>)>,
    from_chain: u64,
    from: Seq<u8>,
    to_chain: u64,
    to: Seq<u8>,
)
    ensures
        has_route(
            routes,
            OracleView { chain_id: from_chain, oracle: from },
            OracleView { chain_id: to_chain, oracle: to },
        ) <==> exists|i: int, j: int| #[trigger]
            route_at(routes, i, j, from_chain, from, to_chain as nat, to),
{
    let a = OracleView { chain_id: from_chain, oracle: from };
    let b = OracleView { chain_id: to_chain, oracle: to };
    if has_route(routes, a, b) {
        let i = choose|i: int|
            0 <= i < routes.len() && (#[trigger] routes[i]).0 == a && routes[i].1.contains(b);
        let j = choose|j: int| 0 <= j < routes[i].1.len() && routes[i].1[j] == b;
        assert(route_at(routes, i, j, from_chain, from, to_chain as nat, to));
    }
    if exists|i: int, j: int| #[trigger]
        route_at(routes, i, j, from_chain, from, to_chain as nat, to) {
        let (i, j) = choose|i: int, j: int| #[trigger]
            route_at(routes, i, j, from_chain, from, to_chain as nat, to);
        assert(routes[i].0 =~= a);
        assert(routes[i].1[j] =~= b);
        assert(routes[i].1.contains(b));
    }
}

/// A route is found exactly if it is listed, both oracles on their chains.
pub proof fn law_listed_routes_are_found(
    routes: OracleRoutes,
    from_chain: u64,
    from: Address,
    to_chain: u64,
    to: Address,
    found: bool,
)
    requires
        call_ensures(OracleRoutes::has_route, (&routes, from_chain, &from, to_chain, &to), found),
    ensures
        found <==> exists|i: int, j: int|
            #![trigger routes.supported_routes@[i].1@[j]]
            {
                &&& 0 <= i < routes.supported_routes@.len()
                &&& routes.supported_routes@[i].0.chain_id == from_chain
                &&& routes.supported_routes@[i].0.oracle.0@ == from.bytes@
                &&& 0 <= j < routes.supported_routes@[i].1@.len()
                &&& routes.supported_routes@[i].1@[j].chain_id == to_chain
                &&& routes.supported_routes@[i].1@[j].oracle.0@ == to.bytes@
            },
{
    lemma_route(routes@, from_chain, from@, to_chain, to@);
    let listed = routes.supported_routes@;
    if found {
        let (i, j) = choose|i: int, j: int| #[trigger]
            route_at(routes@, i, j, from_chain, from@, to_chain as nat, to@);
        assert(routes@[i].1[j] == listed[i].1@[j]@);
        assert(listed[i].1@[j].chain_id == to_chain);
    }
    if exists|i: int, j: int|
        #![trigger listed[i].1@[j]]
        {
            &&& 0 <= i < listed.len()
            &&& listed[i].0.chain_id == from_chain
            &&& listed[i].0.oracle.0@ == from.bytes@
            &&& 0 <= j < listed[i].1@.len()
            &&& listed[i].1@[j].chain_id == to_chain
            &&& listed[i].1@[j].oracle.0@ == to.bytes@
        } {
        let (i, j) = choose|i: int, j: int|
            #![trigger listed[i].1@[j]]
            {
                &&& 0 <= i < listed.len()
                &&& listed[i].0.chain_id == from_chain
                &&& listed[i].0.oracle.0@ == from.bytes@
                &&& 0 <= j < listed[i].1@.len()
                &&& listed[i].1@[j].chain_id == to_chain
                &&& listed[i].1@[j].oracle.0@ == to.bytes@
            };
        assert(routes@[i].1[j] == listed[i].1@[j]@);
        assert(route_at(routes@, i, j, from_chain, from@, to_chain as nat, to@));
    }
}

/// An intent is accepted at a time exactly if it is well formed, both its times lie ahead of the
/// low 32 bits of the time, its origin has an input settler and its destination an output settler,
/// and a route leads between its oracles, where any are configured. What fails first in this order
/// is named.
pub proof fn law_accepted_intents(
    order_impl: ShinobiOrderImpl,
    intent: ShinobiIntent,
    now: u64,
    formed: Result<(), String>,
    checked: Result<(), OrderError>,
    can: bool,
)
    requires
        call_ensures(ShinobiIntent::validate, (&intent,), formed),
        call_ensures(ShinobiOrderImpl::validate_intent, (&order_impl, &intent, now), checked),
        call_ensures(ShinobiOrderImpl::can_check, (&order_impl, &intent, now), can),
        formed is Ok && intent.fill_deadline > now % 0x1_0000_0000 && intent.expires > now
            % 0x1_0000_0000 && order_impl@.inputs.contains_key(intent.origin_chain_id)
            ==> intent.outputs@[0].chain_id@ <= u64::MAX,
    ensures
        can,
        ({
            let rules = order_impl@;
            let destination = intent.outputs@[0].chain_id@;
            let routed = rules.routes.len() == 0 || exists|i: int, j: int| #[trigger]
                route_at(
                    rules.routes,
                    i,
                    j,
                    intent.origin_chain_id,
                    intent.fill_oracle.bytes@,
                    destination,
                    intent.intent_oracle.bytes@,
                );
            match checked {
                Ok(_) => {
                    &&& formed is Ok
                    &&& intent.fill_deadline > now % 0x1_0000_0000
                    &&& intent.expires > now % 0x1_0000_0000
                    &&& rules.inputs.contains_key(intent.origin_chain_id)
                    &&& rules.outputs.contains_key(destination as u64)
                    &&& routed
                },
                Err(OrderError::ValidationFailed(message)) => match formed {
                    Err(e) => message@ == e@,
                    Ok(_) => if intent.fill_deadline <= now % 0x1_0000_0000 {
                        message@ == "Fill deadline has passed"@
                    } else if intent.expires <= now % 0x1_0000_0000 {
                        message@ == "Intent has expired"@
                    } else if !rules.inputs.contains_key(intent.origin_chain_id) {
                        message@ == "No input settler for origin chain "@ + decimal(
                            intent.origin_chain_id as nat,
                        )
                    } else if !rules.outputs.contains_key(destination as u64) {
                        message@ == "No output settler for destination chain "@ + decimal(
                            destination,
                        )
                    } else {
                        &&& !routed
                        &&& message@ == "No oracle route from "@ + ("0x"@ + hex_text(
                            intent.fill_oracle.bytes@,
                        )) + " on chain "@ + decimal(intent.origin_chain_id as nat) + " to "@ + (
                        "0x"@ + hex_text(intent.intent_oracle.bytes@)) + " on chain "@ + decimal(
                            destination,
                        )
                    },
                },
            }
        }),
{
    if formed is Ok {
        assert(intent@.outputs[0] == intent.outputs@[0]@);
        let destination = intent.outputs@[0].chain_id@ as u64;
        lemma_route(
            order_impl@.routes,
            intent.origin_chain_id,
            intent.fill_oracle.bytes@,
            destination,
            intent.intent_oracle.bytes@,
        );
        assert(origin_oracle(intent@) == (OracleView {
            chain_id: intent.origin_chain_id,
            oracle: intent.fill_oracle.bytes@,
        }));
        assert(destination_oracle(intent@) == (OracleView {
            chain_id: destination,
            oracle: intent.intent_oracle.bytes@,
        }));
    }
}

/// The check of an intent is out of reach exactly where it would come to a destination of more
/// than 64 bits.
pub proof fn law_uncheckable_intents(
    order_impl: ShinobiOrderImpl,
    intent: ShinobiIntent,
    now: u64,
    formed: Result<(), String>,
    can: bool,
)
    requires
        call_ensures(ShinobiIntent::validate, (&intent,), formed),
        call_ensures(ShinobiOrderImpl::can_check, (&order_impl, &intent, now), can),
    ensures
        !can <==> formed is Ok && intent.fill_deadline > now % 0x1_0000_0000 && intent.expires
            > now % 0x1_0000_0000 && order_impl@.inputs.contains_key(intent.origin_chain_id)
            && intent.outputs@[0].chain_id@ > u64::MAX,
{
    if formed is Ok {
        assert(intent@.outputs[0] == intent.outputs@[0]@);
    }
}

// ---------------------------------------------------------------------------
// Reading
// ---------------------------------------------------------------------------
/// The bytes of an order are read in hexadecimal, with or without `0x`, and decoded: the intent of
/// the order has every field of what they decode to.
pub proof fn law_order_is_read_from_its_bytes(
    order_impl: ShinobiOrderImpl,
    order: Order,
    parsed: Result<ShinobiIntent, OrderError>,
    data: &[u8],
    decoded: Result<ShinobiIntentSol, String>,
)
    requires
        call_ensures(ShinobiOrderImpl::parse_intent, (&order_impl, &order), parsed)
            || call_ensures(
            ShinobiOrderImpl::try_parse_intent,
            (&order_impl, &order),
            Some(parsed),
        ),
        call_ensures(ShinobiIntentSol::abi_decode, (data,), decoded),
    ensures
        match order.data.order_bytes {
            None => parsed matches Err(OrderError::ValidationFailed(message)) && message@
                == "Missing order_bytes in data"@,
            Some(text) => {
                let digits = if text@.len() >= 2 && text@[0] == '0' && text@[1] == 'x' {
                    text@.skip(2)
                } else {
                    text@
                };
                match hex_bytes(digits) {
                    None => parsed matches Err(OrderError::ValidationFailed(message)) && message@
                        == "Invalid order_bytes hex: "@ + hex_error_text(digits),
                    Some(bytes) => data@ == bytes ==> match decoded {
                        Err(e) => parsed matches Err(OrderError::ValidationFailed(message))
                            && message@ == "Failed to decode ShinobiIntent: "@ + e@,
                        Ok(sol) => parsed matches Ok(intent) && same_intent(intent, sol),
                    },
                }
            },
        },
{
    if let Ok(intent) = parsed {
        if let Ok(sol) = decoded {
            lemma_same_intent(intent, sol);
        }
    }
}

/// An order is left unread only where its origin chain has more than 64 bits.
pub proof fn law_unread_orders(
    order_impl: ShinobiOrderImpl,
    order: Order,
    data: &[u8],
    decoded: Result<ShinobiIntentSol, String>,
    parsed: Option<Result<ShinobiIntent, OrderError>>,
)
    requires
        call_ensures(ShinobiOrderImpl::try_parse_intent, (&order_impl, &order), parsed),
        call_ensures(ShinobiIntentSol::abi_decode, (data,), decoded),
    ensures
        match order.data.order_bytes {
            None => parsed is Some,
            Some(text) => {
                let digits = if text@.len() >= 2 && text@[0] == '0' && text@[1] == 'x' {
                    text@.skip(2)
                } else {
                    text@
                };
                match hex_bytes(digits) {
                    None => parsed is Some,
                    Some(bytes) => data@ == bytes ==> (parsed is None <==> (decoded matches Ok(sol)
                        && sol.originChainId@ > u64::MAX)),
                }
            },
        },
{
}

/// An error says what it was made with.
pub proof fn law_error_says_its_message(e: OrderError, said: &str)
    requires
        call_ensures(OrderError::message, (&e,), said),
    ensures
        e matches OrderError::ValidationFailed(message) && said@ == message@,
{
}

/// What could be decoded is reported as it is, and what could not, in words.
pub proof fn law_decoding_is_reported(
    decoded: Result<ShinobiIntentSol, String>,
    reported: Result<ShinobiIntentSol, OrderError>,
)
    requires
        call_ensures(report_decoded, (decoded,), reported),
    ensures
        match decoded {
            Ok(sol) => reported matches Ok(same) && same == sol,
            Err(e) => reported matches Err(OrderError::ValidationFailed(message)) && message@
                == "Failed to decode ShinobiIntent: "@ + e@,
        },
{
}

// ---------------------------------------------------------------------------
// Filling
// ---------------------------------------------------------------------------
/// Whether a transaction leaves fees and nonce to whoever sends it.
pub open spec fn leaves_fees_open(tx: Transaction) -> bool {
    &&& tx.nonce is None
    &&& tx.gas_limit is None
    &&& tx.gas_price is None
    &&& tx.max_fee_per_gas is None
    &&& tx.max_priority_fee_per_gas is None
}

/// Whether a transaction calls `fill` with an intent, on the output settler of the chain of its
/// first output, and carries that output's amount exactly if its token is all zeros.
pub open spec fn fills(
    tx: Transaction,
    rules: OrderRules,
    intent: ShinobiIntent,
    words: WordsView,
) -> bool {
    &&& intent.outputs@.len() > 0
    &&& tx.chain_id == intent.outputs@[0].chain_id@
    &&& rules.outputs.contains_key(tx.chain_id)
    &&& tx.to matches Some(to)
    &&& to.0@ == rules.outputs[tx.chain_id]
    &&& tx.value@ == (if all_zeros(intent.outputs@[0].token@) {
        intent.outputs@[0].amount@
    } else {
        0
    })
    &&& tx.data@ == keccak256_of(encode_utf8(FILL_SIGNATURE@))@.subrange(0, 4)
        + abi_encoded_words(words)
    &&& leaves_fees_open(tx)
}

/// An intent is filled exactly if it is accepted: by a call of `fill` with the intent on its
/// destination, which pays the first output's amount where its token is all zeros, whatever the
/// chain, and nothing where it is not.
pub proof fn law_accepted_intent_is_filled(
    order_impl: ShinobiOrderImpl,
    intent: ShinobiIntent,
    now: u64,
    checked: Result<(), OrderError>,
    filled: Result<Transaction, OrderError>,
    words: WordsView,
)
    requires
        call_ensures(ShinobiOrderImpl::can_check, (&order_impl, &intent, now), true),
        call_ensures(ShinobiOrderImpl::validate_intent, (&order_impl, &intent, now), checked),
        call_ensures(ShinobiOrderImpl::fill_transaction, (&order_impl, intent, now), filled),
        words_hold(words, intent),
    ensures
        match filled {
            Ok(tx) => checked is Ok && fills(tx, order_impl@, intent, words),
            Err(OrderError::ValidationFailed(message)) => checked matches Err(
                OrderError::ValidationFailed(same),
            ) && message@ == same@,
        },
{
    lemma_words_hold(words, intent);
    if intent.outputs@.len() > 0 {
        assert(intent@.outputs[0] == intent.outputs@[0]@);
        lemma_all_zeros(intent.outputs@[0].token@);
    }
    if let Ok(tx) = filled {
        assert(outcome(filled) == Ok::<TransactionView, Seq<char>>(tx@));
    }
}

/// An order is filled as the intent that it carries is, and an order that carries none is not.
pub proof fn law_order_is_filled_as_its_intent(
    order_impl: ShinobiOrderImpl,
    order: Order,
    params: ExecutionParams,
    now: u64,
    parsed: Result<ShinobiIntent, OrderError>,
    checked: Result<(), OrderError>,
    filled: Result<Transaction, OrderError>,
    words: WordsView,
)
    requires
        call_ensures(ShinobiOrderImpl::parse_intent, (&order_impl, &order), parsed),
        parsed matches Ok(intent) ==> {
            &&& call_ensures(ShinobiOrderImpl::can_check, (&order_impl, &intent, now), true)
            &&& words_hold(words, intent)
            &&& call_ensures(
                ShinobiOrderImpl::validate_intent,
                (&order_impl, &intent, now),
                checked,
            )
        },
        call_ensures(
            ShinobiOrderImpl::generate_fill_transaction,
            (&order_impl, &order, &params, now),
            filled,
        ) || call_ensures(
            ShinobiOrderImpl::try_generate_fill_transaction,
            (&order_impl, &order, &params, now),
            Some(filled),
        ),
    ensures
        match parsed {
            Err(OrderError::ValidationFailed(why)) => filled matches Err(
                OrderError::ValidationFailed(message),
            ) && message@ == why@,
            Ok(intent) => match filled {
                Ok(tx) => checked is Ok && fills(tx, order_impl@, intent, words),
                Err(OrderError::ValidationFailed(message)) => checked matches Err(
                    OrderError::ValidationFailed(same),
                ) && message@ == same@,
            },
        },
{
    if let Ok(intent) = parsed {
        lemma_words_hold(words, intent);
        if intent.outputs@.len() > 0 {
            assert(intent@.outputs[0] == intent.outputs@[0]@);
            lemma_all_zeros(intent.outputs@[0].token@);
        }
        if let Ok(tx) = filled {
            assert(outcome(filled) == Ok::<TransactionView, Seq<char>>(tx@));
        }
    }
}

/// A fill is withheld exactly where the order is left unread or its intent is out of reach of the
/// check.
pub proof fn law_withheld_fills(
    order_impl: ShinobiOrderImpl,
    order: Order,
    params: ExecutionParams,
    now: u64,
    parsed: Option<Result<ShinobiIntent, OrderError>>,
    can: bool,
    filled: Option<Result<Transaction, OrderError>>,
)
    requires
        call_ensures(ShinobiOrderImpl::try_parse_intent, (&order_impl, &order), parsed),
        parsed matches Some(Ok(intent)) ==> call_ensures(
            ShinobiOrderImpl::can_check,
            (&order_impl, &intent, now),
            can,
        ),
        call_ensures(
            ShinobiOrderImpl::try_generate_fill_transaction,
            (&order_impl, &order, &params, now),
            filled,
        ),
    ensures
        filled is None <==> parsed is None || (parsed matches Some(Ok(intent)) && !can),
{
}

// ---------------------------------------------------------------------------
// Claiming
// ---------------------------------------------------------------------------
/// Whether a transaction calls `finalise` with an intent, on the input settler of its origin chain:
/// for one fill by the solver at the low 32 bits of a time, with the solver as the destination.
pub open spec fn claims(
    tx: Transaction,
    rules: OrderRules,
    intent: ShinobiIntent,
    words: WordsView,
    solver_word: Seq<u8>,
    filled_timestamp: u64,
) -> bool {
    &&& tx.chain_id == intent.origin_chain_id
    &&& rules.inputs.contains_key(tx.chain_id)
    &&& tx.to matches Some(to)
    &&& to.0@ == rules.inputs[tx.chain_id]
    &&& tx.value@ == 0
    &&& tx.data@ == keccak256_of(encode_utf8(FINALISE_SIGNATURE@))@.subrange(0, 4)
        + abi_encoded_finalise(
        words,
        seq![((filled_timestamp % 0x1_0000_0000) as u32, solver_word)],
        solver_word,
    )
    &&& leaves_fees_open(tx)
}

/// Whether a word is the solver's address behind twelve zeros.
pub open spec fn solver_word_is(solver_word: Seq<u8>, solver: SolverAddress) -> bool {
    &&& solver.0@.len() == 20
    &&& solver_word.len() == 32
    &&& forall|i: int| 0 <= i < 12 ==> #[trigger] solver_word[i] == 0
    &&& forall|i: int| 0 <= i < 20 ==> solver_word[12 + i] == #[trigger] solver.0@[i]
}

/// The word of a solver.
proof fn lemma_solver_word(solver_word: Seq<u8>, solver: SolverAddress)
    requires
        solver_word_is(solver_word, solver),
    ensures
        solver_word == address_word(solver@),
{
    assert forall|i: int| 0 <= i < 32 implies #[trigger] solver_word[i] == address_word(
        solver@,
    )[i] by {
        if i >= 12 {
            assert(solver_word[12 + (i - 12)] == solver.0@[i - 12]);
        }
    }
    assert(solver_word =~= address_word(solver@));
}

/// An intent is claimed on its origin chain for the solver, who is also where the escrow goes,
/// whatever the chain, exactly if there is a settler.
pub proof fn law_escrow_goes_to_the_solver(
    order_impl: ShinobiOrderImpl,
    intent: ShinobiIntent,
    solver: SolverAddress,
    fill_proof: FillProof,
    claimed: Result<Transaction, OrderError>,
    words: WordsView,
    solver_word: Seq<u8>,
)
    requires
        call_ensures(
            ShinobiOrderImpl::claim_transaction,
            (&order_impl, intent, &solver, &fill_proof),
            claimed,
        ),
        words_hold(words, intent),
        solver_word_is(solver_word, solver),
    ensures
        match claimed {
            Ok(tx) => claims(
                tx,
                order_impl@,
                intent,
                words,
                solver_word,
                fill_proof.filled_timestamp,
            ),
            Err(OrderError::ValidationFailed(message)) => {
                &&& !order_impl@.inputs.contains_key(intent.origin_chain_id)
                &&& message@ == "No input settler for chain "@ + decimal(
                    intent.origin_chain_id as nat,
                )
            },
        },
{
    lemma_words_hold(words, intent);
    lemma_solver_word(solver_word, solver);
    if let Ok(tx) = claimed {
        assert(outcome(claimed) == Ok::<TransactionView, Seq<char>>(tx@));
    }
}

/// An order is claimed as the intent that it carries is, for the solver that it names.
pub proof fn law_order_is_claimed_for_its_solver(
    order_impl: ShinobiOrderImpl,
    order: Order,
    fill_proof: FillProof,
    parsed: Result<ShinobiIntent, OrderError>,
    claimed: Result<Transaction, OrderError>,
    words: WordsView,
    solver_word: Seq<u8>,
)
    requires
        call_ensures(ShinobiOrderImpl::parse_intent, (&order_impl, &order), parsed),
        parsed matches Ok(intent) ==> words_hold(words, intent),
        call_ensures(
            ShinobiOrderImpl::generate_claim_transaction,
            (&order_impl, &order, &fill_proof),
            claimed,
        ) || call_ensures(
            ShinobiOrderImpl::try_generate_claim_transaction,
            (&order_impl, &order, &fill_proof),
            Some(claimed),
        ),
        solver_word_is(solver_word, order.solver_address),
    ensures
        match parsed {
            Err(OrderError::ValidationFailed(why)) => claimed matches Err(
                OrderError::ValidationFailed(message),
            ) && message@ == why@,
            Ok(intent) => match claimed {
                Ok(tx) => claims(
                    tx,
                    order_impl@,
                    intent,
                    words,
                    solver_word,
                    fill_proof.filled_timestamp,
                ),
                Err(OrderError::ValidationFailed(message)) => {
                    &&& !order_impl@.inputs.contains_key(intent.origin_chain_id)
                    &&& message@ == "No input settler for chain "@ + decimal(
                        intent.origin_chain_id as nat,
                    )
                },
            },
        },
{
    lemma_solver_word(solver_word, order.solver_address);
    if let Ok(intent) = parsed {
        lemma_words_hold(words, intent);
        if let Ok(tx) = claimed {
            assert(outcome(claimed) == Ok::<TransactionView, Seq<char>>(tx@));
        }
    }
}

/// Where the origin chain has no settler, or an order carries no intent, a claim fails for that
/// reason, whatever the solver's address is.
pub proof fn law_claim_without_settler_fails(
    order_impl: ShinobiOrderImpl,
    order: Order,
    fill_proof: FillProof,
    parsed: Result<ShinobiIntent, OrderError>,
    claimed: Result<Transaction, OrderError>,
)
    requires
        call_ensures(ShinobiOrderImpl::parse_intent, (&order_impl, &order), parsed),
        call_ensures(
            ShinobiOrderImpl::generate_claim_transaction,
            (&order_impl, &order, &fill_proof),
            claimed,
        ) || call_ensures(
            ShinobiOrderImpl::try_generate_claim_transaction,
            (&order_impl, &order, &fill_proof),
            Some(claimed),
        ),
        parsed matches Ok(intent) ==> !order_impl@.inputs.contains_key(intent.origin_chain_id),
    ensures
        match parsed {
            Err(OrderError::ValidationFailed(why)) => claimed matches Err(
                OrderError::ValidationFailed(message),
            ) && message@ == why@,
            Ok(intent) => claimed matches Err(OrderError::ValidationFailed(message)) && message@
                == "No input settler for chain "@ + decimal(intent.origin_chain_id as nat),
        },
{
}

/// The same holds of an intent by itself.
pub proof fn law_claim_of_intent_without_settler_fails(
    order_impl: ShinobiOrderImpl,
    intent: ShinobiIntent,
    solver: SolverAddress,
    fill_proof: FillProof,
    claimed: Result<Transaction, OrderError>,
)
    requires
        call_ensures(
            ShinobiOrderImpl::claim_transaction,
            (&order_impl, intent, &solver, &fill_proof),
            claimed,
        ),
        !order_impl@.inputs.contains_key(intent.origin_chain_id),
    ensures
        claimed matches Err(OrderError::ValidationFailed(message)) && message@
            == "No input settler for chain "@ + decimal(intent.origin_chain_id as nat),
{
}

/// A plain transaction holds what it was made with, and leaves the rest open.
pub proof fn law_plain_transaction(
    to: Vec<u8>,
    data: Vec<u8>,
    value: U256,
    chain_id: u64,
    tx: Transaction,
)
    requires
        call_ensures(Transaction::plain, (to, data, value, chain_id), tx),
    ensures
        tx.to matches Some(receiver) && receiver.0@ == to@,
        tx.data@ == data@,
        tx.value@ == value@,
        tx.chain_id == chain_id,
        leaves_fees_open(tx),
{
}

/// A claim is withheld exactly where the order is left unread, or where a solver is needed whose
/// address does not have twenty bytes.
pub proof fn law_withheld_claims(
    order_impl: ShinobiOrderImpl,
    order: Order,
    fill_proof: FillProof,
    parsed: Option<Result<ShinobiIntent, OrderError>>,
    claimed: Option<Result<Transaction, OrderError>>,
)
    requires
        call_ensures(ShinobiOrderImpl::try_parse_intent, (&order_impl, &order), parsed),
        call_ensures(
            ShinobiOrderImpl::try_generate_claim_transaction,
            (&order_impl, &order, &fill_proof),
            claimed,
        ),
    ensures
        claimed is None <==> parsed is None || (parsed matches Some(Ok(intent))
            && order_impl@.inputs.contains_key(intent.origin_chain_id)
            && order.solver_address.0@.len() != 20),
{
}

// ---------------------------------------------------------------------------
// Creating
// ---------------------------------------------------------------------------
/// Whether a draft is for an intent and its bytes: with its settlers on both chains, and the
/// question for the origin chain.
pub open spec fn drafts(
    draft: OrderDraft,
    rules: OrderRules,
    intent: ShinobiIntent,
    words: WordsView,
    order_bytes: Seq<u8>,
) -> bool {
    &&& words_hold(words, draft.intent)
    &&& draft.order_bytes@ == order_bytes
    &&& draft.origin_chain_id == intent.origin_chain_id
    &&& rules.inputs.contains_key(draft.origin_chain_id)
    &&& draft.tx_data@ == rules.inputs[draft.origin_chain_id] + order_bytes
    &&& draft.input_chains@.len() == 1
    &&& draft.input_chains@[0].chain_id == intent.origin_chain_id
    &&& draft.input_chains@[0].settler_address.0@ == rules.inputs[draft.origin_chain_id]
    &&& intent.outputs@.len() > 0
    &&& draft.output_chains@.len() == 1
    &&& draft.output_chains@[0].chain_id == intent.outputs@[0].chain_id@
    &&& rules.outputs.contains_key(draft.output_chains@[0].chain_id)
    &&& draft.output_chains@[0].settler_address.0@
        == rules.outputs[draft.output_chains@[0].chain_id]
}

/// A draft as a mathematical value has these settlers.
proof fn lemma_draft(
    draft: OrderDraft,
    rules: OrderRules,
    intent: ShinobiIntent,
    words: WordsView,
    order_bytes: Seq<u8>,
)
    requires
        draft@ == draft_of(rules, intent@, order_bytes),
        words_hold(words, intent),
        intent.outputs@.len() > 0,
        intent.outputs@[0].chain_id@ <= u64::MAX,
        rules.inputs.contains_key(intent.origin_chain_id),
        rules.outputs.contains_key(intent.outputs@[0].chain_id@ as u64),
    ensures
        drafts(draft, rules, intent, words, order_bytes),
{
    assert(intent@.outputs[0] == intent.outputs@[0]@);
    assert(draft.intent@ == intent@);
    lemma_same_words(words, intent, draft.intent);
    assert(draft@.input_chains.len() == 1);
    assert(draft@.output_chains.len() == 1);
    assert(draft@.input_chains[0] == (
        draft.input_chains@[0].chain_id,
        draft.input_chains@[0].settler_address@,
    ));
    assert(draft@.output_chains[0] == (
        draft.output_chains@[0].chain_id,
        draft.output_chains@[0].settler_address@,
    ));
}

/// An order is drafted for an intent exactly if it is accepted: for the intent as it is, with the
/// bytes as they are, and with one settler on either chain.
pub proof fn law_accepted_intent_is_drafted(
    order_impl: ShinobiOrderImpl,
    intent: ShinobiIntent,
    order_bytes: &[u8],
    now: u64,
    checked: Result<(), OrderError>,
    draft: Result<OrderDraft, OrderError>,
    words: WordsView,
)
    requires
        call_ensures(ShinobiOrderImpl::can_check, (&order_impl, &intent, now), true),
        call_ensures(ShinobiOrderImpl::validate_intent, (&order_impl, &intent, now), checked),
        call_ensures(
            ShinobiOrderImpl::draft_order,
            (&order_impl, intent, order_bytes, now),
            draft,
        ),
        words_hold(words, intent),
    ensures
        match draft {
            Ok(made) => checked is Ok && drafts(
                made,
                order_impl@,
                intent,
                words,
                order_bytes@,
            ),
            Err(OrderError::ValidationFailed(message)) => checked matches Err(
                OrderError::ValidationFailed(same),
            ) && message@ == same@,
        },
{
    if intent.outputs@.len() > 0 {
        assert(intent@.outputs[0] == intent.outputs@[0]@);
    }
    if let Ok(made) = draft {
        assert(outcome(draft) == Ok::<DraftView, Seq<char>>(made@));
        lemma_draft(made, order_impl@, intent, words, order_bytes@);
    }
}

/// An order is prepared from bytes as it is drafted for the intent that they decode to.
pub proof fn law_bytes_are_prepared_as_their_intent(
    order_impl: ShinobiOrderImpl,
    order_bytes: &[u8],
    now: u64,
    decoded: Result<ShinobiIntentSol, String>,
    intent: ShinobiIntent,
    checked: Result<(), OrderError>,
    draft: Result<OrderDraft, OrderError>,
    words: WordsView,
)
    requires
        call_ensures(ShinobiIntentSol::abi_decode, (order_bytes,), decoded),
        decoded matches Ok(sol) ==> {
            &&& same_intent(intent, sol)
            &&& call_ensures(ShinobiOrderImpl::can_check, (&order_impl, &intent, now), true)
            &&& words_hold(words, intent)
            &&& call_ensures(
                ShinobiOrderImpl::validate_intent,
                (&order_impl, &intent, now),
                checked,
            )
        },
        call_ensures(ShinobiOrderImpl::prepare_order, (&order_impl, order_bytes, now), draft)
            || call_ensures(
            ShinobiOrderImpl::try_prepare_order,
            (&order_impl, order_bytes, now),
            Some(draft),
        ),
    ensures
        match decoded {
            Err(e) => draft matches Err(OrderError::ValidationFailed(message)) && message@
                == "Failed to decode ShinobiIntent: "@ + e@,
            Ok(_) => match draft {
                Ok(made) => checked is Ok && drafts(
                    made,
                    order_impl@,
                    intent,
                    words,
                    order_bytes@,
                ),
                Err(OrderError::ValidationFailed(message)) => checked matches Err(
                    OrderError::ValidationFailed(same),
                ) && message@ == same@,
            },
        },
{
    if let Ok(sol) = decoded {
        lemma_same_intent(intent, sol);
        if intent.outputs@.len() > 0 {
            assert(intent@.outputs[0] == intent.outputs@[0]@);
        }
        if let Ok(made) = draft {
            assert(outcome(draft) == Ok::<DraftView, Seq<char>>(made@));
            lemma_draft(made, order_impl@, intent, words, order_bytes@);
        }
    }
}

/// Preparing is withheld exactly where the origin has more than 64 bits, or the intent is out of
/// reach of the check.
pub proof fn law_withheld_drafts(
    order_impl: ShinobiOrderImpl,
    order_bytes: &[u8],
    now: u64,
    decoded: Result<ShinobiIntentSol, String>,
    intent: ShinobiIntent,
    can: bool,
    draft: Option<Result<OrderDraft, OrderError>>,
)
    requires
        call_ensures(ShinobiIntentSol::abi_decode, (order_bytes,), decoded),
        decoded matches Ok(sol) ==> (sol.originChainId@ <= u64::MAX ==> same_intent(intent, sol)
            && call_ensures(ShinobiOrderImpl::can_check, (&order_impl, &intent, now), can)),
        call_ensures(ShinobiOrderImpl::try_prepare_order, (&order_impl, order_bytes, now), draft),
    ensures
        draft is None <==> (decoded matches Ok(sol) && (sol.originChainId@ > u64::MAX || !can)),
{
    if let Ok(sol) = decoded {
        if sol.originChainId@ <= u64::MAX {
            lemma_same_intent(intent, sol);
        }
    }
}

/// A draft becomes an order under the identifier that the origin chain answered, with the bytes of
/// the draft, the settlers of the draft and the solver, and nothing done about it yet. An intent
/// that came with it is kept in place of the decoded one. Where the chain did not answer, there is
/// no order.
pub proof fn law_draft_becomes_an_order(
    order_impl: ShinobiOrderImpl,
    draft: OrderDraft,
    answer: Result<Vec<u8>, String>,
    given: Option<ShinobiIntent>,
    solver: SolverAddress,
    now: u64,
    order: Result<Order, OrderError>,
    words: WordsView,
)
    requires
        call_ensures(
            ShinobiOrderImpl::finish_order,
            (&order_impl, draft, answer, given, &solver, now),
            order,
        ),
        words_hold(
            words,
            match given {
                Some(intent) => intent,
                None => draft.intent,
            },
        ),
    ensures
        match answer {
            Err(e) => order matches Err(OrderError::ValidationFailed(message)) && message@
                == "Failed to compute order ID: "@ + e@,
            Ok(id) => {
                &&& order matches Ok(o)
                &&& o.id@ == "0x"@ + hex_text(id@)
                &&& o.standard@ == "shinobi"@
                &&& o.created_at == now
                &&& o.updated_at == now
                &&& o.status == OrderStatus::Created
                &&& o.data.intent matches Some(kept)
                &&& words_hold(words, kept)
                &&& o.data.order_bytes matches Some(text)
                &&& text@ == "0x"@ + hex_text(draft.order_bytes@)
                &&& o.solver_address.0@ == solver.0@
                &&& o.quote_id is None
                &&& o.input_chains@.len() == draft.input_chains@.len()
                &&& forall|i: int|
                    0 <= i < o.input_chains@.len() ==> (#[trigger] o.input_chains@[i]).chain_id
                        == draft.input_chains@[i].chain_id
                        && o.input_chains@[i].settler_address.0@
                        == draft.input_chains@[i].settler_address.0@
                &&& o.output_chains@.len() == draft.output_chains@.len()
                &&& forall|i: int|
                    0 <= i < o.output_chains@.len() ==> (#[trigger] o.output_chains@[i]).chain_id
                        == draft.output_chains@[i].chain_id
                        && o.output_chains@[i].settler_address.0@
                        == draft.output_chains@[i].settler_address.0@
                &&& o.execution_params is None
                &&& o.prepare_tx_hash is None
                &&& o.fill_tx_hash is None
                &&& o.post_fill_tx_hash is None
                &&& o.pre_claim_tx_hash is None
                &&& o.claim_tx_hash is None
                &&& o.fill_proof is None
            },
        },
{
    if answer is Ok {
        let o = order->Ok_0;
        let kept = o.data.intent->0;
        let before = match given {
            Some(intent) => intent,
            None => draft.intent,
        };
        assert(o@.data.intent == Some(before@));
        lemma_same_words(words, before, kept);
        assert(o@.input_chains == draft@.input_chains);
        assert(o@.output_chains == draft@.output_chains);
        assert(o@.input_chains.len() == draft@.input_chains.len());
        assert(o@.output_chains.len() == draft@.output_chains.len());
        assert forall|i: int| 0 <= i < o.input_chains@.len() implies (
            #[trigger] o.input_chains@[i]).chain_id == draft.input_chains@[i].chain_id
            && o.input_chains@[i].settler_address.0@
            == draft.input_chains@[i].settler_address.0@ by {
            assert(o@.input_chains[i] == draft@.input_chains[i]);
            assert(o@.input_chains[i] == (
                o.input_chains@[i].chain_id,
                o.input_chains@[i].settler_address@,
            ));
        }
        assert forall|i: int| 0 <= i < o.output_chains@.len() implies (
            #[trigger] o.output_chains@[i]).chain_id == draft.output_chains@[i].chain_id
            && o.output_chains@[i].settler_address.0@
            == draft.output_chains@[i].settler_address.0@ by {
            assert(o@.output_chains[i] == draft@.output_chains[i]);
            assert(o@.output_chains[i] == (
                o.output_chains@[i].chain_id,
                o.output_chains@[i].settler_address@,
            ));
        }
    }
}

} // verus!
