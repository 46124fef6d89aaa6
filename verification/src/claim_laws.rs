//! What holds of every claim on a share of the pot, and of every payment that is made for one.

use crate::automatic::{
    choice_fault, fallback_fault, info_fault, is_shown, latest_authorization, terms_fault,
    ticket_position, EligiblePayout, PayoutAuthorizationInfo, PayoutRegistrationRequest,
};
use crate::claims::{
    binding_of, claim_step, is_claimed_for, owed_to, pays_automatically, BoundParticipant,
    ClaimError, ClaimStepView, PayoutPolicy,
};
use crate::competition::{Competition, Uuid};
use crate::contract::{ContractParameters, Outcome};
use crate::encoding::{
    base64_bytes, base64_url_bytes, hash32, hex_bytes, hex_round_trips, hex_text, is_hex,
    point_of_hex, public_point, scalar_of_hex, sha256_digest, trimmed,
};
use crate::entries::{Ticket, UserEntry};
use crate::ids::version;
use crate::payout_jobs::{
    can_be_replaced, closes_claim, given_up, has_live_claim, has_live_payment, invoice_hash,
    is_new_claim, is_new_payment, job_with, only_jobs_change, payout_with, LedgerError, Payout,
    PayoutJob, PayoutLedger,
};
use crate::payout_schedule::{
    claim_status, comes_before, indexed, is_due, lists_due, retry_delay, tried_again, ClaimStatus,
};
use crate::sellback::{bolt11, key_check, opened, owed, weighed_player, PayoutRejection};
use crate::settlement::{current_outcome, SettlementError};
use crate::ticket_payouts::{weighed_is_first, wins_with};
use vstd::arithmetic::power2::lemma2_to64;
use vstd::prelude::*;

verus! {

/// What a winner is owed is their player's weight of the funding value, in hundredths, which is never
/// more than the pot where no weight is above a hundred; and nothing is owed where the weight is
/// nothing. A product that cannot be counted stands at the largest amount.
pub proof fn winners_are_owed_their_share(
    competition: Competition,
    entry: UserEntry,
    params: ContractParameters,
    outcome: Outcome,
    player: usize,
)
    requires
        competition.contract_parameters == Some(params),
        params.players@.len() <= usize::MAX,
        current_outcome(competition) == Ok::<Outcome, SettlementError>(outcome),
        params.outcome_payouts.weights(outcome) is Some,
        point_of_hex(entry.ephemeral_pubkey@) is Some,
        wins_with(
            params.players@,
            params.outcome_payouts.weights(outcome)->0,
            point_of_hex(entry.ephemeral_pubkey@)->0,
            player,
        ),
    ensures
        ({
            let weight = params.outcome_payouts.weights(outcome)->0[player];
            let product = params.funding_value * weight;
            let told = owed_to(competition, entry);
            &&& weight == 0 ==> told == Err::<nat, ClaimError>(ClaimError::NotAWinner)
            &&& weight > 0 && product <= u64::MAX ==> (told matches Ok(sats) && sats * 100
                <= product < sats * 100 + 100)
            &&& weight > 0 && product > u64::MAX ==> (told matches Ok(sats) && sats
                == 184_467_440_737_095_516)
            &&& weight <= 100 ==> (told matches Ok(sats) ==> sats <= params.funding_value)
        }),
{
    let weights = params.outcome_payouts.weights(outcome)->0;
    let point = point_of_hex(entry.ephemeral_pubkey@)->0;
    let weight = weights[player];
    one_wins_with(params, weights, point, player);
    assert(params.funding_value * weight >= 0) by (nonlinear_arith);
    if weight <= 100 {
        assert(params.funding_value * weight <= params.funding_value * 100) by (nonlinear_arith)
            requires
                weight <= 100,
        ;
    }
}

/// The lowest player who has a key and a weight is the one who is found.
proof fn one_wins_with(
    params: ContractParameters,
    weights: Map<usize, u64>,
    point: Seq<u8>,
    player: usize,
)
    requires
        params.players@.len() <= usize::MAX,
        wins_with(params.players@, weights, point, player),
    ensures
        weighed_player(params.players@, weights, point, 0) == Some(player),
{
    weighed_is_first(params.players@, weights, point, 0);
    match weighed_player(params.players@, weights, point, 0) {
        Some(found) => {
            if found < player {
                assert(weights.contains_key(found));
            }
            if player < found {
                assert(weights.contains_key(player));
            }
        },
        None => {
            assert(weights.contains_key(player));
        },
    }
}

/// Whoever has the key of no player whom the outcome pays is owed nothing.
pub proof fn others_are_owed_nothing(
    competition: Competition,
    entry: UserEntry,
    params: ContractParameters,
    outcome: Outcome,
)
    requires
        competition.contract_parameters == Some(params),
        params.players@.len() <= usize::MAX,
        current_outcome(competition) == Ok::<Outcome, SettlementError>(outcome),
        point_of_hex(entry.ephemeral_pubkey@) is Some,
        params.outcome_payouts.weights(outcome) matches Some(weights) ==> forall|q: usize|
            q < params.players@.len() && #[trigger] weights.contains_key(q)
                ==> params.players@[q as int].pubkey@ != point_of_hex(entry.ephemeral_pubkey@)->0,
    ensures
        owed_to(competition, entry) == Err::<nat, ClaimError>(ClaimError::NotAWinner),
{
    if let Some(weights) = params.outcome_payouts.weights(outcome) {
        weighed_is_first(params.players@, weights, point_of_hex(entry.ephemeral_pubkey@)->0, 0);
    }
}

/// A preimage opens a payout hash exactly if it stands for 32 bytes, in hexadecimal or base64, whose
/// hash is that of the entry; white space at its ends does not count.
pub proof fn only_the_preimage_opens(preimage: Seq<char>, payout_hash: Seq<char>, bytes: Seq<u8>)
    requires
        bytes.len() == 32,
        ({
            let text = trimmed(preimage);
            if is_hex(text) && text.len() == 64 {
                hex_bytes(text) == bytes
            } else {
                base64_bytes(text) == Some(bytes) || (base64_bytes(text) is None
                    && base64_url_bytes(text) == Some(bytes))
            }
        }),
    ensures
        opened(preimage, payout_hash) is Ok == (is_hex(payout_hash) && payout_hash.len() == 64
            && sha256_digest(bytes) == hex_bytes(payout_hash)),
        opened(preimage, payout_hash) matches Ok(found) ==> found == bytes,
        opened(preimage, payout_hash) is Err ==> opened(preimage, payout_hash) == Err::<
            Seq<u8>,
            PayoutRejection,
        >(PayoutRejection::PreimageMismatch),
{
    hex_round_trips(bytes);
}

/// A key is an entry's exactly if it can be read and its point is the entry's public key.
pub proof fn only_the_key_opens(key: Seq<char>, pubkey: Seq<u8>)
    ensures
        key_check(key, pubkey) is Ok == (scalar_of_hex(key) is Some && public_point(
            scalar_of_hex(key)->0,
        ) == Some(pubkey)),
        (key_check(key, pubkey) == Err::<(), PayoutRejection>(PayoutRejection::InvalidKey)) == (
        scalar_of_hex(key) is None),
{
}

/// The first binding of a participant is theirs, and no earlier one is.
proof fn binding_is_first(
    bindings: Seq<BoundParticipant>,
    user_id: Uuid,
    enclave_id: u32,
    from: int,
)
    requires
        0 <= from,
    ensures
        match binding_of(bindings, user_id, enclave_id, from) {
            Some(at) => from <= at < bindings.len() && bindings[at].user_id == user_id
                && bindings[at].enclave_id == enclave_id,
            None => forall|i: int|
                from <= i < bindings.len() ==> !((#[trigger] bindings[i]).user_id == user_id
                    && bindings[i].enclave_id == enclave_id),
        },
    decreases bindings.len() - from,
{
    if from < bindings.len() {
        binding_is_first(bindings, user_id, enclave_id, from + 1);
    }
}

/// A payment is prepared for a claim exactly if none was entered for it, the pot is not being paid
/// out on-chain, the contract is signed, decided and bound for the entry's own participant, and the
/// entry is owed something; and it is then prepared for what is owed, under that binding.
pub proof fn payments_are_prepared_for_what_is_owed(
    job: PayoutJob,
    entry: UserEntry,
    competition: Competition,
    payout: Option<Payout>,
    bindings: Option<Vec<BoundParticipant>>,
)
    ensures
        ({
            let step = claim_step(job, Some(entry), competition, true, payout, bindings);
            let context = entry.keymeld_registration_context;
            let prepares = step matches Ok(ClaimStepView::Prepare { binding, owed_sats });
            &&& prepares == {
                &&& job.payout_id is None
                &&& competition.delta_broadcasted_at is None
                &&& competition.expiry_broadcasted_at is None
                &&& competition.completed_at is None
                &&& competition.cancelled_at is None
                &&& competition.signed_contract is Some
                &&& competition.attestation is Some
                &&& bindings is Some
                &&& context is Some
                &&& exists|i: int|
                    0 <= i < (bindings->0)@.len() && (#[trigger] (bindings->0)@[i]).user_id
                        == entry.ticket_id && (bindings->0)@[i].enclave_id == context->0.enclave_id
                &&& owed_to(competition, entry) is Ok
            }
            &&& step matches Ok(ClaimStepView::Prepare { binding, owed_sats }) ==> {
                &&& owed_to(competition, entry) == Ok::<nat, ClaimError>(owed_sats as nat)
                &&& 0 <= binding < (bindings->0)@.len()
                &&& (bindings->0)@[binding].user_id == entry.ticket_id
                &&& (bindings->0)@[binding].enclave_id == context->0.enclave_id
            }
        }),
{
    if bindings is Some && entry.keymeld_registration_context is Some {
        binding_is_first(
            (bindings->0)@,
            entry.ticket_id,
            entry.keymeld_registration_context->0.enclave_id,
            0,
        );
    }
}

/// A claim that a payment was entered for is given up exactly if the payment failed, and waits
/// exactly while it neither failed nor succeeded. Once it succeeded, the proof is looked up by the
/// invoice's hash until there is one; and only what hashes to that hash is taken for a proof.
pub proof fn claims_follow_their_payment(
    job: PayoutJob,
    entry: UserEntry,
    competition: Competition,
    payout: Payout,
    bindings: Option<Vec<BoundParticipant>>,
)
    requires
        job.payout_id is Some,
    ensures
        ({
            let step = claim_step(job, Some(entry), competition, true, Some(payout), bindings);
            let hash = bolt11(payout.payout_payment_request@);
            &&& (step matches Ok(ClaimStepView::GiveUp)) == (payout.failed_at is Some)
            &&& (step matches Ok(ClaimStepView::Poll)) == (payout.failed_at is None
                && payout.succeed_at is None)
            &&& (step matches Ok(ClaimStepView::LookUpProof { payment_hash })) == (payout.failed_at
                is None && payout.succeed_at is Some && payout.payment_preimage is None && hash
                is Ok)
            &&& step matches Ok(ClaimStepView::LookUpProof { payment_hash }) ==> payment_hash
                == hex_text((hash->Ok_0).1)
            &&& step matches Ok(ClaimStepView::Release { payment_preimage }) ==> {
                &&& payout.failed_at is None
                &&& payout.succeed_at is Some
                &&& job.prepared_json is Some
                &&& hash is Ok
                &&& opened((payout.payment_preimage->0)@, hex_text((hash->Ok_0).1)) matches Ok(
                    preimage,
                ) && payment_preimage == hex_text(preimage)
            }
            &&& payout.failed_at is None && payout.succeed_at is Some
                && payout.payment_preimage is Some && job.prepared_json is Some && hash is Ok
                && opened((payout.payment_preimage->0)@, hex_text((hash->Ok_0).1)) is Ok ==> (step
                matches Ok(ClaimStepView::Release { payment_preimage }))
        }),
{
}

/// Claims are made for exactly those winners who are owed something and gave a Lightning address,
/// were not paid and have no claim, in a competition whose funded contract is decided and whose pot
/// is not being paid out otherwise.
pub proof fn claims_are_made_for_unpaid_winners(
    competition: Competition,
    entry: UserEntry,
    live_claim: bool,
    policy: Option<PayoutPolicy>,
)
    ensures
        pays_automatically(competition) == (competition.attestation is Some
            && competition.signed_contract is Some && competition.funding_confirmed_at is Some
            && competition.delta_broadcasted_at is None && competition.expiry_broadcasted_at is None
            && competition.completed_at is None && competition.cancelled_at is None
            && competition.failed_at is None),
        is_claimed_for(competition, entry, live_claim, policy) == (entry.paid_out_at is None
            && !live_claim && policy is Some && policy->0.automatic_lightning_address is Some
            && owed_to(competition, entry) is Ok),
{
}

/// A player's choice is taken exactly if their entry's id begins with the time and its key is
/// compressed, the payout hash is one, they agree to release their key, and they can be paid in one
/// way or the other: to an address that is one, or to an invoice of their own.
pub proof fn payout_choices_need_a_way_to_pay(
    entry_pubkey: Seq<u8>,
    choice: PayoutRegistrationRequest,
    address_is_valid: bool,
)
    ensures
        choice_fault(entry_pubkey, choice, address_is_valid) is None == (version(choice.entry_id)
            == 7 && entry_pubkey.len() == 33 && hash32(choice.payout_hash@) is Some
            && choice.release_entry_key_after_payment && (choice.lightning_address is Some
            || choice.allow_invoice_fallback) && (choice.lightning_address is Some
            ==> address_is_valid)),
{
}

/// Where a ticket stands among the competition's, it is, and no earlier one is the same.
proof fn position_is_first(tickets: Seq<Uuid>, id: Uuid, from: int)
    requires
        0 <= from,
    ensures
        match ticket_position(tickets, id, from) {
            Some(at) => from <= at < tickets.len() && tickets[at] == id && forall|i: int|
                from <= i < at ==> #[trigger] tickets[i] != id,
            None => forall|i: int| from <= i < tickets.len() ==> #[trigger] tickets[i] != id,
        },
    decreases tickets.len() - from,
{
    if from < tickets.len() {
        position_is_first(tickets, id, from + 1);
    }
}

/// The terms that a player agrees to are fixed exactly if their ticket is one of the competition's,
/// the oracle has announced the event, both hashes can be read, and the places can be paid out. The
/// player is counted where their ticket stands.
pub proof fn players_are_counted_by_their_tickets(
    competition: Competition,
    ticket: Ticket,
    tickets: Seq<Uuid>,
    payout_hash: Seq<char>,
)
    ensures
        ({
            let places = competition.event_submission.number_of_places_win;
            &&& terms_fault(competition, ticket, tickets, payout_hash) is None == (tickets.contains(
                ticket.id,
            ) && competition.event_announcement is Some && hash32(ticket.hash@) is Some && hash32(
                payout_hash,
            ) is Some && 0 < places <= tickets.len() <= 100)
            &&& ticket_position(tickets, ticket.id, 0) matches Some(at) ==> 0 <= at < tickets.len()
                && tickets[at] == ticket.id
            &&& tickets.no_duplicates() ==> forall|at: int|
                0 <= at < tickets.len() && #[trigger] tickets[at] == ticket.id ==> ticket_position(
                    tickets,
                    ticket.id,
                    0,
                ) == Some(at)
        }),
{
    position_is_first(tickets, ticket.id, 0);
}

/// A player is told of a payout exactly if the entry is their own in this competition, was made under
/// a policy, registered with Keymeld and is owed something, and the contract and its funding are
/// fixed. They are told what is owed, in thousandths of a satoshi, and may send an invoice of their
/// own exactly while their policy lets them, they are not paid, and payouts over Lightning are open.
pub proof fn players_are_told_of_their_own_payouts(
    entry: UserEntry,
    owner: Seq<char>,
    competition: Competition,
    policy: Option<PayoutPolicy>,
    digest: Option<String>,
    window_closed: bool,
    claim: Option<ClaimStatus>,
    info: PayoutAuthorizationInfo,
)
    ensures
        info_fault(Some(entry), owner, competition, policy, digest) is None == {
            &&& entry.pubkey@ == owner
            &&& entry.event_id == competition.id
            &&& policy is Some
            &&& competition.contract_parameters is Some
            &&& competition.funding_outpoint is Some
            &&& entry.keymeld_registration_context is Some
            &&& digest is Some
            &&& owed_to(competition, entry) matches Ok(sats) && sats * 1000 <= u64::MAX
        },
        policy is Some && info.tells(competition, entry, policy->0, window_closed, claim)
            && owed_to(competition, entry) is Ok ==> {
            let open = !window_closed && competition.delta_broadcasted_at is None
                && competition.expiry_broadcasted_at is None && competition.completed_at is None
                && competition.cancelled_at is None;
            &&& owed_to(competition, entry) matches Ok(sats) && info.amount_msat == 1000 * sats
            &&& info.allow_invoice_fallback == (policy->0.allow_invoice_fallback && open
                && entry.paid_out_at is None)
            &&& claim is None && open ==> info.status@ == "Awaiting payout"@
            &&& claim is None && !open ==> info.status@ == "On-chain settlement"@
            &&& claim == Some(ClaimStatus::Paid) ==> info.status@ == "Paid"@
        },
{
}

/// A winner's own invoice is taken exactly if they may send one, the pot is not being paid out
/// on-chain, it is for what is owed, and they signed for it for at most ten minutes from now.
pub proof fn own_invoices_are_signed_for(
    info: PayoutAuthorizationInfo,
    competition: Competition,
    invoice_is_owed: bool,
    expires_at: u64,
    now: u64,
    has_entry: bool,
    signature_holds: bool,
)
    ensures
        fallback_fault(
            info,
            competition,
            invoice_is_owed,
            expires_at,
            now,
            has_entry,
            signature_holds,
        ) is None == (info.allow_invoice_fallback && competition.delta_broadcasted_at is None
            && competition.expiry_broadcasted_at is None && competition.completed_at is None
            && competition.cancelled_at is None && invoice_is_owed && has_entry && signature_holds
            && expires_at <= now + 600),
{
}

/// A payout is shown exactly where an entry is owed something by an attested outcome that is
/// on-chain, unless it was paid without a policy. An invoice may be sent while the entry is not paid
/// and payouts over Lightning are open, unless a policy forbids it.
pub proof fn shown_payouts_are_owed(
    competition: Competition,
    entry: UserEntry,
    policy: Option<PayoutPolicy>,
    window_closed: bool,
    claim: Option<ClaimStatus>,
    payout: EligiblePayout,
)
    ensures
        is_shown(competition, entry, policy) == (competition.attestation is Some
            && competition.outcome_broadcasted_at is Some && (entry.paid_out_at is None || policy
            is Some) && owed_to(competition, entry) is Ok),
        payout.shows(competition, entry, policy, window_closed, claim) && owed_to(competition, entry)
            is Ok ==> {
            let open = !window_closed && competition.delta_broadcasted_at is None
                && competition.expiry_broadcasted_at is None && competition.completed_at is None
                && competition.cancelled_at is None;
            &&& owed_to(competition, entry) matches Ok(sats) && payout.amount_sats == sats
            &&& payout.escrow_enabled == (policy is Some)
            &&& payout.allow_invoice_fallback == (entry.paid_out_at is None && open && (policy
                is None || policy->0.allow_invoice_fallback))
            &&& claim is None && !open ==> payout.status@ == "On-chain settlement"@
            &&& claim is None && open && policy is Some
                && policy->0.automatic_lightning_address is Some ==> payout.status@
                == "Queued automatically"@
            &&& claim is None && open && (policy is None
                || policy->0.automatic_lightning_address is None) ==> payout.status@
                == "Awaiting invoice"@
        },
{
}

/// A claim is found under its id, and only there.
proof fn claim_is_found(jobs: Seq<PayoutJob>, id: Uuid, from: int)
    requires
        0 <= from,
    ensures
        match job_with(jobs, id, from) {
            Some(at) => from <= at < jobs.len() && jobs[at].id == id && forall|i: int|
                from <= i < at ==> (#[trigger] jobs[i]).id != id,
            None => forall|i: int| from <= i < jobs.len() ==> (#[trigger] jobs[i]).id != id,
        },
    decreases jobs.len() - from,
{
    if from < jobs.len() {
        claim_is_found(jobs, id, from + 1);
    }
}

/// A payment is found under its id, and only there.
proof fn payment_is_found(payouts: Seq<Payout>, id: Uuid, from: int)
    requires
        0 <= from,
    ensures
        match payout_with(payouts, id, from) {
            Some(at) => from <= at < payouts.len() && payouts[at].id == id && forall|i: int|
                from <= i < at ==> (#[trigger] payouts[i]).id != id,
            None => forall|i: int| from <= i < payouts.len() ==> (#[trigger] payouts[i]).id != id,
        },
    decreases payouts.len() - from,
{
    if from < payouts.len() {
        payment_is_found(payouts, id, from + 1);
    }
}

/// A payment to the entry was entered that has not failed.
pub open spec fn may_be_paid(payouts: Seq<Payout>, entry_id: Uuid) -> bool {
    exists|i: int|
        0 <= i < payouts.len() && (#[trigger] payouts[i]).entry_id == entry_id
            && payouts[i].failed_at is None
}

/// A claim of the entry has not failed.
pub open spec fn is_claimed(jobs: Seq<PayoutJob>, entry_id: Uuid) -> bool {
    exists|i: int|
        0 <= i < jobs.len() && (#[trigger] jobs[i]).entry_id == entry_id && jobs[i].failed_at
            is None
}

/// The claim is neither done nor given up, and nothing was sent for it but what failed.
pub open spec fn nothing_stands_for(job: PayoutJob, payouts: Seq<Payout>) -> bool {
    &&& job.completed_at is None
    &&& job.failed_at is None
    &&& job.payout_id is Some ==> exists|p: int|
        0 <= p < payouts.len() && Some((#[trigger] payouts[p]).id) == job.payout_id
            && payouts[p].failed_at is Some && payouts[p].succeed_at is None
}

/// A claim is replaceable exactly if nothing stands for it.
proof fn replaceable_claims(job: PayoutJob, ledger: PayoutLedger)
    requires
        ledger.wf(),
    ensures
        can_be_replaced(job, ledger.payouts@) == nothing_stands_for(job, ledger.payouts@),
{
    let payouts = ledger.payouts@;
    if let Some(id) = job.payout_id {
        payment_is_found(payouts, id, 0);
        if nothing_stands_for(job, payouts) {
            let p = choose|p: int|
                0 <= p < payouts.len() && Some((#[trigger] payouts[p]).id) == job.payout_id
                    && payouts[p].failed_at is Some && payouts[p].succeed_at is None;
            let at = payout_with(payouts, id, 0)->0;
            if at < p {
                assert(payouts[at].id != payouts[p].id);
            }
        }
        if can_be_replaced(job, payouts) {
            let at = payout_with(payouts, id, 0)->0;
            assert(Some(payouts[at].id) == job.payout_id);
        }
    }
}

/// A claim is made exactly if payouts over Lightning are open for the event, its id is new, and the
/// entry has neither a claim nor a payment that has not failed.
pub proof fn an_entry_has_one_claim_and_one_payment(
    ledger: PayoutLedger,
    id: Uuid,
    entry_id: Uuid,
    event_id: Uuid,
)
    ensures
        ledger.claim_fault(id, entry_id, event_id) is None == {
            &&& !ledger.closed@.contains(event_id)
            &&& !is_claimed(ledger.jobs@, entry_id)
            &&& !may_be_paid(ledger.payouts@, entry_id)
            &&& forall|i: int| 0 <= i < ledger.jobs@.len() ==> (#[trigger] ledger.jobs@[i]).id != id
        },
{
    claim_is_found(ledger.jobs@, id, 0);
    assert(has_live_claim(ledger.jobs@, entry_id) == is_claimed(ledger.jobs@, entry_id)) by {
        if is_claimed(ledger.jobs@, entry_id) {
            let i = choose|i: int|
                0 <= i < ledger.jobs@.len() && (#[trigger] ledger.jobs@[i]).entry_id == entry_id
                    && ledger.jobs@[i].failed_at is None;
            assert(ledger.jobs@[i].is_live());
        }
    }
    live_payments(ledger, entry_id);
}

/// A payment is live exactly if it has not failed.
proof fn live_payments(ledger: PayoutLedger, entry_id: Uuid)
    ensures
        has_live_payment(ledger.payouts@, entry_id) == may_be_paid(ledger.payouts@, entry_id),
{
    if may_be_paid(ledger.payouts@, entry_id) {
        let i = choose|i: int|
            0 <= i < ledger.payouts@.len() && (#[trigger] ledger.payouts@[i]).entry_id == entry_id
                && ledger.payouts@[i].failed_at is None;
        assert(ledger.payouts@[i].is_live());
    }
}

/// A winner's own invoice makes a new claim exactly if payouts over Lightning are open, its id is
/// new, no payment to the entry may still be made or was made, and nothing stands for any claim of
/// the entry that has not failed. Exactly those claims of the entry are given up for it, and every
/// other claim stays as it is. A request that was made before changes nothing.
pub proof fn own_invoices_replace_only_what_nothing_stands_for(
    ledger: PayoutLedger,
    id: Uuid,
    entry_id: Uuid,
    event_id: Uuid,
    request_json: Seq<char>,
    now: i64,
    at: int,
)
    requires
        ledger.wf(),
        0 <= at < ledger.jobs@.len(),
    ensures
        ({
            let outcome = ledger.fallback_outcome(id, entry_id, event_id, request_json, now);
            let jobs = ledger.jobs@;
            let known = exists|i: int| 0 <= i < jobs.len() && (#[trigger] jobs[i]).id == id;
            &&& (outcome == Ok::<bool, LedgerError>(true)) == {
                &&& !ledger.closed@.contains(event_id)
                &&& !known
                &&& !may_be_paid(ledger.payouts@, entry_id)
                &&& forall|i: int|
                    0 <= i < jobs.len() && (#[trigger] jobs[i]).entry_id == entry_id
                        && jobs[i].failed_at is None ==> nothing_stands_for(
                        jobs[i],
                        ledger.payouts@,
                    )
            }
            &&& (outcome == Ok::<bool, LedgerError>(false)) == {
                &&& !ledger.closed@.contains(event_id)
                &&& exists|i: int|
                    0 <= i < jobs.len() && (#[trigger] jobs[i]).id == id && jobs[i].entry_id
                        == entry_id && jobs[i].request_json@ == request_json
            }
            &&& given_up(jobs, ledger.payouts@, entry_id, now).len() == jobs.len()
            &&& given_up(jobs, ledger.payouts@, entry_id, now)[at] == if jobs[at].entry_id
                == entry_id && nothing_stands_for(jobs[at], ledger.payouts@) {
                PayoutJob { failed_at: Some(now), ..jobs[at] }
            } else {
                jobs[at]
            }
        }),
{
    let jobs = ledger.jobs@;
    let after = given_up(jobs, ledger.payouts@, entry_id, now);
    claim_is_found(jobs, id, 0);
    live_payments(ledger, entry_id);
    replaceable_claims(jobs[at], ledger);
    assert forall|i: int| 0 <= i < jobs.len() implies #[trigger] after[i].is_live() == (
    jobs[i].failed_at is None && !(jobs[i].entry_id == entry_id && nothing_stands_for(
        jobs[i],
        ledger.payouts@,
    ))) && after[i].entry_id == jobs[i].entry_id by {
        replaceable_claims(jobs[i], ledger);
    }
    let free = forall|i: int|
        0 <= i < jobs.len() && (#[trigger] jobs[i]).entry_id == entry_id && jobs[i].failed_at is None
            ==> nothing_stands_for(jobs[i], ledger.payouts@);
    assert(has_live_claim(after, entry_id) == !free) by {
        if has_live_claim(after, entry_id) {
            let i = choose|i: int|
                0 <= i < after.len() && (#[trigger] after[i]).entry_id == entry_id
                    && after[i].is_live();
            assert(after[i].is_live());
            assert(jobs[i].entry_id == entry_id);
        }
        if !free {
            let i = choose|i: int|
                0 <= i < jobs.len() && (#[trigger] jobs[i]).entry_id == entry_id
                    && jobs[i].failed_at is None && !nothing_stands_for(jobs[i], ledger.payouts@);
            assert(after[i].is_live());
        }
    }
    if job_with(jobs, id, 0) is Some {
        let found = job_with(jobs, id, 0)->0;
        assert(jobs[found].id == id);
        assert forall|i: int| 0 <= i < jobs.len() && (#[trigger] jobs[i]).id == id implies i
            == found by {
            if found < i {
                assert(jobs[found].id != jobs[i].id);
            }
        }
    }
}

/// A payment is entered for a claim exactly if its invoice can be read, its amount can be stored, the
/// claim has not failed and has no payment yet, no payment to its entry may be made or was made, and
/// both the payment's id and the hash that it pays to are new. The same receipt once more gives the
/// payment that was entered for it.
pub proof fn no_entry_and_no_hash_is_paid_twice(
    ledger: PayoutLedger,
    at: int,
    payout_id: Uuid,
    invoice: Seq<char>,
    amount_sats: u64,
    prepared_json: Seq<char>,
)
    requires
        ledger.wf(),
        0 <= at < ledger.jobs@.len(),
    ensures
        ({
            let job = ledger.jobs@[at];
            let payouts = ledger.payouts@;
            let made = ledger.preparation(job.id, payout_id, invoice, amount_sats, prepared_json);
            let read = bolt11(invoice);
            &&& (made == Ok::<Option<Uuid>, LedgerError>(None)) == {
                &&& read is Ok
                &&& amount_sats <= 0x7fff_ffff_ffff_ffff
                &&& job.failed_at is None
                &&& job.payout_id is None
                &&& !may_be_paid(payouts, job.entry_id)
                &&& forall|i: int|
                    0 <= i < payouts.len() ==> (#[trigger] payouts[i]).id != payout_id && !(
                    payouts[i].payment_hash is Some && (payouts[i].payment_hash->0)@ == hex_text(
                        (read->Ok_0).1,
                    ))
            }
            &&& made matches Ok(Some(existing)) ==> job.payout_id == Some(existing)
                && job.prepared_json is Some && (job.prepared_json->0)@ == prepared_json
                && job.failed_at is None
            &&& job.payout_id is Some && !(job.prepared_json is Some && (job.prepared_json->0)@
                == prepared_json) ==> made is Err
            &&& job.failed_at is Some ==> made is Err
        }),
{
    let job = ledger.jobs@[at];
    let payouts = ledger.payouts@;
    claim_is_found(ledger.jobs@, job.id, 0);
    let found = job_with(ledger.jobs@, job.id, 0);
    assert(found == Some(at)) by {
        match found {
            Some(other) => {
                if other < at {
                    assert(ledger.jobs@[other].id != ledger.jobs@[at].id);
                }
            },
            None => {
                assert(ledger.jobs@[at].id != job.id);
            },
        }
    }
    live_payments(ledger, job.entry_id);
    payment_is_found(payouts, payout_id, 0);
    if let Ok((_, hash, _)) = bolt11(invoice) {
        let text = hex_text(hash);
        assert(invoice_hash(invoice) == Some(text));
        assert forall|i: int| 0 <= i < payouts.len() implies #[trigger] payouts[i].pays_to(text) == (
        payouts[i].payment_hash is Some && (payouts[i].payment_hash->0)@ == text) by {}
    }
}

/// Secrets are entered exactly for a claim that has not failed, is the entry's, and whose payment
/// was made and is proven; they have to open the entry's key and payout hash, and be the same as
/// were entered before.
pub proof fn secrets_are_released_for_a_proven_payment(
    ledger: PayoutLedger,
    at: int,
    entry: UserEntry,
    key: Seq<char>,
    preimage: Seq<char>,
)
    requires
        ledger.wf(),
        0 <= at < ledger.jobs@.len(),
    ensures
        ({
            let job = ledger.jobs@[at];
            let payouts = ledger.payouts@;
            ledger.release_fault(job.id, entry, key, preimage) is None == {
                &&& job.failed_at is None
                &&& job.entry_id == entry.id
                &&& job.payout_id is Some
                &&& exists|p: int|
                    0 <= p < payouts.len() && Some((#[trigger] payouts[p]).id) == job.payout_id
                        && payouts[p].succeed_at is Some && payouts[p].payment_preimage is Some
                &&& point_of_hex(entry.ephemeral_pubkey@) is Some
                &&& scalar_of_hex(key) is Some
                &&& public_point(scalar_of_hex(key)->0) == point_of_hex(entry.ephemeral_pubkey@)
                &&& opened(preimage, entry.payout_hash@) is Ok
                &&& entry.ephemeral_privatekey is Some ==> (entry.ephemeral_privatekey->0)@ == key
                &&& entry.payout_preimage is Some ==> (entry.payout_preimage->0)@ == preimage
            }
        }),
{
    let job = ledger.jobs@[at];
    let payouts = ledger.payouts@;
    claim_is_found(ledger.jobs@, job.id, 0);
    match job_with(ledger.jobs@, job.id, 0) {
        Some(other) => {
            if other < at {
                assert(ledger.jobs@[other].id != ledger.jobs@[at].id);
            }
        },
        None => {
            assert(ledger.jobs@[at].id != job.id);
        },
    }
    if let Some(id) = job.payout_id {
        payment_is_found(payouts, id, 0);
        if let Some(found) = payout_with(payouts, id, 0) {
            assert(Some(payouts[found].id) == job.payout_id);
            assert forall|p: int| 0 <= p < payouts.len() && Some((#[trigger] payouts[p]).id)
                == job.payout_id implies p == found by {
                if found < p {
                    assert(payouts[found].id != payouts[p].id);
                }
            }
        }
    }
}

/// A claim is taken up exactly once it is due and neither done nor given up, and those that wait
/// longest come first: by when they are due, then by when they were made, then by their ids.
pub proof fn claims_are_taken_up_in_turn(a: PayoutJob, b: PayoutJob, now: i64)
    ensures
        is_due(a, now) == (a.completed_at is None && a.failed_at is None && a.retry_at <= now),
        a.retry_at < b.retry_at ==> comes_before(a, b) && !comes_before(b, a),
        a.retry_at == b.retry_at && a.created_at < b.created_at ==> comes_before(a, b)
            && !comes_before(b, a),
        a.retry_at == b.retry_at && a.created_at == b.created_at ==> comes_before(a, b) == (a.id
            < b.id),
{
}

/// A claim waits twice as long each time, from five seconds, until it waits for five minutes.
pub proof fn retries_double(attempts: nat)
    ensures
        retry_delay(0) == 5,
        retry_delay(attempts + 1) == if 2 * retry_delay(attempts) < 300 {
            2 * retry_delay(attempts)
        } else {
            300
        },
{
    lemma2_to64();
    assert(attempts < 7 ==> attempts == 0 || attempts == 1 || attempts == 2 || attempts == 3
        || attempts == 4 || attempts == 5 || attempts == 6);
}

/// A claim stands as paid exactly once it is completed; before that it tells whether its payment was
/// made, is under way, went wrong before it was sent, or was not tried yet.
pub proof fn claims_stand_as_they_are(ledger: PayoutLedger, job: PayoutJob)
    requires
        ledger.wf(),
    ensures
        ({
            let payouts = ledger.payouts@;
            let status = claim_status(job, payouts);
            let made = exists|p: int|
                0 <= p < payouts.len() && Some((#[trigger] payouts[p]).id) == job.payout_id
                    && payouts[p].succeed_at is Some;
            &&& status is Paid == (job.completed_at is Some)
            &&& status is Completing == (job.completed_at is None && job.payout_id is Some && made)
            &&& status is InProgress == (job.completed_at is None && job.payout_id is Some && !made)
            &&& status is Retrying == (job.completed_at is None && job.payout_id is None
                && job.last_error is Some)
            &&& status is Queued == (job.completed_at is None && job.payout_id is None
                && job.last_error is None)
        }),
{
    let payouts = ledger.payouts@;
    if let Some(id) = job.payout_id {
        payment_is_found(payouts, id, 0);
        if let Some(found) = payout_with(payouts, id, 0) {
            assert(Some(payouts[found].id) == job.payout_id);
            assert forall|p: int| 0 <= p < payouts.len() && Some((#[trigger] payouts[p]).id)
                == job.payout_id implies p == found by {
                if found < p {
                    assert(payouts[found].id != payouts[p].id);
                }
            }
        }
    }
}

/// A claim that went wrong is tried again after the delay of all its failures, keeps the error, and
/// changes in nothing else.
pub proof fn failed_claims_wait_for_their_turn(
    before: PayoutJob,
    attempts: nat,
    error: String,
    now: i64,
)
    requires
        now + retry_delay(attempts) <= i64::MAX,
        before.attempts < u32::MAX,
    ensures
        ({
            let after = tried_again(before, attempts, error, now);
            &&& after.attempts == before.attempts + 1
            &&& after.retry_at == now + retry_delay(attempts)
            &&& after.last_error == Some(error)
            &&& after == (PayoutJob {
                attempts: after.attempts,
                retry_at: after.retry_at,
                last_error: after.last_error,
                ..before
            })
        }),
{
}

/// A payment keeps the hash that it has, and one without gets that of its own invoice or none.
pub proof fn payments_are_indexed_by_their_own_invoice(payouts: Seq<Payout>, upto: int, at: int)
    requires
        0 <= upto <= payouts.len(),
        0 <= at < payouts.len(),
    ensures
        indexed(payouts, upto).len() == payouts.len(),
        payouts[at].payment_hash is Some ==> indexed(payouts, upto)[at] == Some(
            (payouts[at].payment_hash->0)@,
        ),
        payouts[at].payment_hash is None ==> indexed(payouts, upto)[at] is None || indexed(
            payouts,
            upto,
        )[at] == invoice_hash(payouts[at].payout_payment_request@),
        payouts[at].payment_hash is None && at >= upto ==> indexed(payouts, upto)[at] is None,
    decreases upto,
{
    if upto > 0 {
        payments_are_indexed_by_their_own_invoice(payouts, upto - 1, at);
    }
}

/// No two payments are indexed under one hash, where none were before.
pub proof fn no_two_payments_share_a_hash(payouts: Seq<Payout>, upto: int, a: int, b: int)
    requires
        0 <= upto <= payouts.len(),
        0 <= a < b < payouts.len(),
        forall|i: int, j: int|
            0 <= i < j < payouts.len() && (#[trigger] payouts[i]).payment_hash is Some && (
            #[trigger] payouts[j]).payment_hash is Some ==> (payouts[i].payment_hash->0)@ != (
            payouts[j].payment_hash->0)@,
    ensures
        indexed(payouts, upto)[a] is Some ==> indexed(payouts, upto)[a] != indexed(payouts, upto)[b],
    decreases upto,
{
    if upto > 0 {
        no_two_payments_share_a_hash(payouts, upto - 1, a, b);
        payments_are_indexed_by_their_own_invoice(payouts, upto - 1, a);
        payments_are_indexed_by_their_own_invoice(payouts, upto - 1, b);
        let before = indexed(payouts, upto - 1);
        assert(before.contains(before[a]) && before.contains(before[b]));
    } else {
        assert(payouts[a] == payouts[a] && payouts[b] == payouts[b]);
    }
}

/// An authorization may last ten minutes from now, as far as times can be told.
pub proof fn authorizations_last_ten_minutes(now: u64)
    ensures
        now + 600 <= u64::MAX ==> latest_authorization(now) == now + 600,
        latest_authorization(now) <= u64::MAX,
        latest_authorization(now) >= now,
{
}

/// A claim is made afresh: nothing is sent, tried or decided for it, and it is due at once. A payment
/// for one is the claim's own, to the hash of its invoice, and neither made nor lost yet.
pub proof fn claims_and_payments_start_afresh(
    job: PayoutJob,
    id: Uuid,
    entry_id: Uuid,
    event_id: Uuid,
    request_json: String,
    payout: Payout,
    payout_id: Uuid,
    invoice: String,
    amount_sats: u64,
    hash: Seq<char>,
    now: i64,
)
    requires
        is_new_claim(job, id, entry_id, event_id, request_json, now),
        is_new_payment(payout, payout_id, job, invoice, amount_sats, hash, now),
    ensures
        job.id == id && job.entry_id == entry_id && job.event_id == event_id,
        job.request_json == request_json,
        job.payout_id is None && job.prepared_json is None,
        job.attempts == 0 && job.last_error is None,
        job.completed_at is None && job.failed_at is None,
        job.created_at == now && job.retry_at == now,
        is_due(job, now),
        payout.id == payout_id && payout.entry_id == entry_id && payout.event_id == event_id,
        payout.payout_payment_request == invoice && payout.payout_amount_sats == amount_sats,
        payout.payment_hash is Some && (payout.payment_hash->0)@ == hash,
        payout.payment_preimage is None && payout.succeed_at is None && payout.failed_at is None,
        payout.initiated_at == now,
{
}

/// Closing payouts over Lightning gives up exactly the open claims of the event for which nothing was
/// sent, and leaves every other claim as it is.
pub proof fn closing_gives_up_what_was_not_sent(
    before: PayoutJob,
    after: PayoutJob,
    event_id: Uuid,
    now: i64,
)
    requires
        closes_claim(before, after, event_id, now),
    ensures
        before.failed_at is None ==> (after.failed_at is Some) == (before.event_id == event_id
            && before.completed_at is None && before.payout_id is None),
        before.failed_at is Some || after.failed_at is None ==> after == before,
        after.failed_at is Some && before.failed_at is None ==> after.failed_at == Some(now)
            && after.last_error is Some,
        after == (PayoutJob {
            failed_at: after.failed_at,
            last_error: after.last_error,
            ..before
        }),
{
}

/// Changing claims changes no payment, and nothing else of the ledger.
pub proof fn claims_change_alone(before: PayoutLedger, after: PayoutLedger)
    requires
        only_jobs_change(before, after),
    ensures
        after.payouts == before.payouts,
        after == (PayoutLedger { jobs: after.jobs, ..before }),
{
}

/// The claims that are taken up are exactly those that are due, each once: the open ones whose time
/// has come.
pub proof fn due_claims_are_listed_once(
    order: Seq<usize>,
    jobs: Seq<PayoutJob>,
    now: i64,
    at: usize,
)
    requires
        lists_due(order, jobs, jobs.len() as int, now),
        at < jobs.len(),
    ensures
        order.contains(at) == (jobs[at as int].completed_at is None && jobs[at as int].failed_at
            is None && jobs[at as int].retry_at <= now),
{
    if order.contains(at) {
        let i = choose|i: int| 0 <= i < order.len() && order[i] == at;
        assert(is_due(jobs[order[i] as int], now));
    } else {
        assert(!(is_due(jobs[at as int], now)));
    }
}

} // verus!
