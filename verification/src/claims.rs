//! Carrying a claim on: preparing its payment, waiting for it, and releasing what was sold once it
//! is paid.

use crate::competition::{Competition, Uuid};
use crate::encoding::{hex_encode, hex_text, point_from_hex, point_of_hex};
use crate::entries::UserEntry;
use crate::payout_jobs::{
    extract_payment_hash_from_invoice, invoice_hash, Payout, PayoutJob,
};
use crate::sellback::{
    opened, owed, verify_payout_preimage, winner_payout_sats, PayoutRejection,
};
use crate::settlement::{current_outcome, get_current_outcome, SettlementError};
use vstd::prelude::*;

verus! {

/// Why a claim cannot be carried on now. It is tried again later.
#[derive(Clone, Copy, PartialEq, Eq, Structural, Debug)]
pub enum ClaimError {
    EntryGone,
    NoSession,
    /// The claim's payment is not in the ledger.
    PaymentGone,
    /// The payment's invoice cannot be read.
    InvalidInvoice,
    /// The payment has not settled yet.
    Unsettled,
    /// There is no proof of the settled payment yet.
    NoProof,
    /// The receipt of what was prepared is missing.
    NoReceipt,
    /// The proof is none.
    InvalidProof,
    /// The proof is not that of the payment's hash.
    WrongProof,
    /// The pot is being paid out on-chain.
    OnChain,
    /// The contract was not bound for payouts.
    NotBound,
    /// The entry has no context that it was registered under.
    NoContext,
    /// The contract was not bound for this participant.
    NoBinding,
    NotSigned,
    NotAttested,
    NoOutcome(SettlementError),
    NoParameters,
    /// The entry's key is no point.
    InvalidEntryKey,
    NotAWinner,
    /// What was prepared is not for the claim.
    NotTheClaim,
    /// The invoice that was prepared is not for what is owed.
    WrongInvoice,
}

/// One participant's binding of the contract for payouts, by their id and that of their enclave.
#[derive(Clone, Copy, PartialEq, Eq, Structural, Debug)]
pub struct BoundParticipant {
    pub user_id: Uuid,
    pub enclave_id: u32,
}

/// What is to be done next for a claim.
#[derive(Debug)]
pub enum ClaimStep {
    /// Its payment failed: give it up.
    GiveUp,
    /// Its payment is still under way: ask again soon.
    Poll,
    /// Its payment was made: look up the proof, by the hash that it paid to.
    LookUpProof { payment_hash: String },
    /// Its payment is proven: have Keymeld release the secrets.
    Release { payment_preimage: String },
    /// Nothing was sent: have Keymeld prepare an invoice for what is owed, under the binding.
    Prepare { binding: usize, owed_sats: u64 },
}

/// What is to be done next, with its text as sequences.
pub enum ClaimStepView {
    GiveUp,
    Poll,
    LookUpProof { payment_hash: Seq<char> },
    Release { payment_preimage: Seq<char> },
    Prepare { binding: int, owed_sats: int },
}

impl View for ClaimStep {
    type V = ClaimStepView;

    open spec fn view(&self) -> ClaimStepView {
        match *self {
            ClaimStep::GiveUp => ClaimStepView::GiveUp,
            ClaimStep::Poll => ClaimStepView::Poll,
            ClaimStep::LookUpProof { payment_hash } => ClaimStepView::LookUpProof {
                payment_hash: payment_hash@,
            },
            ClaimStep::Release { payment_preimage } => ClaimStepView::Release {
                payment_preimage: payment_preimage@,
            },
            ClaimStep::Prepare { binding, owed_sats } => ClaimStepView::Prepare {
                binding: binding as int,
                owed_sats: owed_sats as int,
            },
        }
    }
}

/// The pot is being paid out on-chain, or never will be paid out otherwise.
pub open spec fn settles_on_chain(competition: Competition) -> bool {
    competition.delta_broadcasted_at is Some || competition.expiry_broadcasted_at is Some
        || competition.completed_at is Some || competition.cancelled_at is Some
}

/// Whether the pot is being paid out on-chain, or never will be paid out otherwise.
pub fn is_settling_on_chain(competition: &Competition) -> (settling: bool)
    ensures
        settling == settles_on_chain(*competition),
{
    competition.delta_broadcasted_at.is_some() || competition.is_expiry_broadcasted()
        || competition.is_completed() || competition.is_cancelled()
}

/// The first binding of the participant from the `from`th on.
pub open spec fn binding_of(
    bindings: Seq<BoundParticipant>,
    user_id: Uuid,
    enclave_id: u32,
    from: int,
) -> Option<int>
    decreases bindings.len() - from,
{
    if from < 0 || from >= bindings.len() {
        None
    } else if bindings[from].enclave_id == enclave_id && bindings[from].user_id == user_id {
        Some(from)
    } else {
        binding_of(bindings, user_id, enclave_id, from + 1)
    }
}

/// The first binding of the participant.
fn find_binding(bindings: &Vec<BoundParticipant>, user_id: Uuid, enclave_id: u32) -> (found: Option<
    usize,
>)
    ensures
        match binding_of(bindings@, user_id, enclave_id, 0) {
            Some(at) => found matches Some(found) && found == at,
            None => found is None,
        },
{
    let mut i: usize = 0;
    while i < bindings.len()
        invariant
            i <= bindings@.len(),
            binding_of(bindings@, user_id, enclave_id, 0) == binding_of(
                bindings@,
                user_id,
                enclave_id,
                i as int,
            ),
        decreases bindings@.len() - i,
    {
        if bindings[i].enclave_id == enclave_id && bindings[i].user_id == user_id {
            return Some(i);
        }
        i = i + 1;
    }
    None
}

/// What an entry is owed under a competition's contract, or why it is owed nothing.
pub open spec fn owed_to(competition: Competition, entry: UserEntry) -> Result<nat, ClaimError> {
    match current_outcome(competition) {
        Err(error) => Err(ClaimError::NoOutcome(error)),
        Ok(outcome) => match competition.contract_parameters {
            None => Err(ClaimError::NoParameters),
            Some(params) => match point_of_hex(entry.ephemeral_pubkey@) {
                None => Err(ClaimError::InvalidEntryKey),
                Some(point) => match owed(params, outcome, point) {
                    Some(sats) => Ok(sats),
                    None => Err(ClaimError::NotAWinner),
                },
            },
        },
    }
}

/// What an entry is owed under a competition's contract, in satoshis.
pub fn owed_sats(competition: &Competition, entry: &UserEntry) -> (sats: Result<u64, ClaimError>)
    ensures
        match owed_to(*competition, *entry) {
            Ok(expected) => sats matches Ok(sats) && sats == expected,
            Err(error) => sats matches Err(told) && told == error,
        },
{
    let outcome = match get_current_outcome(competition) {
        Ok(outcome) => outcome,
        Err(error) => {
            return Err(ClaimError::NoOutcome(error));
        },
    };
    let params = match &competition.contract_parameters {
        Some(params) => params,
        None => {
            return Err(ClaimError::NoParameters);
        },
    };
    let point = match point_from_hex(entry.ephemeral_pubkey.as_str()) {
        Some(point) => point,
        None => {
            return Err(ClaimError::InvalidEntryKey);
        },
    };
    match winner_payout_sats(params, &outcome, &point) {
        Ok(sats) => Ok(sats),
        Err(_) => Err(ClaimError::NotAWinner),
    }
}

/// What is released for a payment that is proven, or why nothing is.
pub open spec fn release_of(job: PayoutJob, payout: Payout, proof_text: Seq<char>) -> Result<
    ClaimStepView,
    ClaimError,
> {
    if job.prepared_json is None {
        Err(ClaimError::NoReceipt)
    } else {
        match invoice_hash(payout.payout_payment_request@) {
            None => Err(ClaimError::InvalidInvoice),
            Some(hash) => match opened(proof_text, hash) {
                Err(PayoutRejection::InvalidPreimage) => Err(ClaimError::InvalidProof),
                Err(_) => Err(ClaimError::WrongProof),
                Ok(preimage) => Ok(
                    ClaimStepView::Release { payment_preimage: hex_text(preimage) },
                ),
            },
        }
    }
}

/// Have the secrets of a claim released, whose payment is proven by `proof_text`: the preimage of
/// the hash that its invoice pays to.
pub fn release_claim(job: &PayoutJob, payout: &Payout, proof_text: &String) -> (step: Result<
    ClaimStep,
    ClaimError,
>)
    ensures
        match release_of(*job, *payout, proof_text@) {
            Ok(expected) => step matches Ok(step) && step@ == expected,
            Err(error) => step matches Err(told) && told == error,
        },
{
    if job.prepared_json.is_none() {
        return Err(ClaimError::NoReceipt);
    }
    let hash = match extract_payment_hash_from_invoice(payout.payout_payment_request.as_str()) {
        Some(hash) => hash,
        None => {
            return Err(ClaimError::InvalidInvoice);
        },
    };
    match verify_payout_preimage(proof_text.as_str(), hash.as_str()) {
        Ok(preimage) => Ok(ClaimStep::Release { payment_preimage: hex_encode(&preimage) }),
        Err(PayoutRejection::InvalidPreimage) => Err(ClaimError::InvalidProof),
        Err(_) => Err(ClaimError::WrongProof),
    }
}

/// What is to be done next for a claim that a payment was entered for.
pub open spec fn payment_step(job: PayoutJob, payout: Option<Payout>) -> Result<
    ClaimStepView,
    ClaimError,
> {
    match payout {
        None => Err(ClaimError::PaymentGone),
        Some(payout) => if payout.failed_at is Some {
            Ok(ClaimStepView::GiveUp)
        } else if payout.succeed_at is None {
            Ok(ClaimStepView::Poll)
        } else {
            match payout.payment_preimage {
                None => match invoice_hash(payout.payout_payment_request@) {
                    None => Err(ClaimError::InvalidInvoice),
                    Some(hash) => Ok(ClaimStepView::LookUpProof { payment_hash: hash }),
                },
                Some(proof_text) => release_of(job, payout, proof_text@),
            }
        },
    }
}

/// What is to be done next for a claim that nothing was sent for.
pub open spec fn preparation_step(
    entry: UserEntry,
    competition: Competition,
    bindings: Option<Vec<BoundParticipant>>,
) -> Result<ClaimStepView, ClaimError> {
    if settles_on_chain(competition) {
        Err(ClaimError::OnChain)
    } else {
        match bindings {
            None => Err(ClaimError::NotBound),
            Some(bindings) => match entry.keymeld_registration_context {
                None => Err(ClaimError::NoContext),
                Some(context) => match binding_of(
                    bindings@,
                    entry.ticket_id,
                    context.enclave_id,
                    0,
                ) {
                    None => Err(ClaimError::NoBinding),
                    Some(binding) => if competition.signed_contract is None {
                        Err(ClaimError::NotSigned)
                    } else if competition.attestation is None {
                        Err(ClaimError::NotAttested)
                    } else {
                        match owed_to(competition, entry) {
                            Err(error) => Err(error),
                            Ok(sats) => Ok(
                                ClaimStepView::Prepare { binding, owed_sats: sats as int },
                            ),
                        }
                    },
                },
            },
        }
    }
}

/// What is to be done next for a claim.
pub open spec fn claim_step(
    job: PayoutJob,
    entry: Option<UserEntry>,
    competition: Competition,
    has_session: bool,
    payout: Option<Payout>,
    bindings: Option<Vec<BoundParticipant>>,
) -> Result<ClaimStepView, ClaimError> {
    match entry {
        None => Err(ClaimError::EntryGone),
        Some(entry) => if !has_session {
            Err(ClaimError::NoSession)
        } else if job.payout_id is Some {
            payment_step(job, payout)
        } else {
            preparation_step(entry, competition, bindings)
        },
    }
}

/// What is to be done next for a claim that a payment was entered for.
fn carry_payment_on(job: &PayoutJob, payout: &Option<Payout>) -> (step: Result<ClaimStep, ClaimError>)
    ensures
        match payment_step(*job, *payout) {
            Ok(expected) => step matches Ok(step) && step@ == expected,
            Err(error) => step matches Err(told) && told == error,
        },
{
    let payout = match payout {
        Some(payout) => payout,
        None => {
            return Err(ClaimError::PaymentGone);
        },
    };
    if payout.failed_at.is_some() {
        return Ok(ClaimStep::GiveUp);
    }
    if payout.succeed_at.is_none() {
        return Ok(ClaimStep::Poll);
    }
    match &payout.payment_preimage {
        None => match extract_payment_hash_from_invoice(payout.payout_payment_request.as_str()) {
            Some(payment_hash) => Ok(ClaimStep::LookUpProof { payment_hash }),
            None => Err(ClaimError::InvalidInvoice),
        },
        Some(proof_text) => release_claim(job, payout, proof_text),
    }
}

/// What is to be done next for a claim that nothing was sent for.
fn prepare_payment(
    entry: &UserEntry,
    competition: &Competition,
    bindings: &Option<Vec<BoundParticipant>>,
) -> (step: Result<ClaimStep, ClaimError>)
    ensures
        match preparation_step(*entry, *competition, *bindings) {
            Ok(expected) => step matches Ok(step) && step@ == expected,
            Err(error) => step matches Err(told) && told == error,
        },
{
    if is_settling_on_chain(competition) {
        return Err(ClaimError::OnChain);
    }
    let bindings = match bindings {
        Some(bindings) => bindings,
        None => {
            return Err(ClaimError::NotBound);
        },
    };
    let enclave_id: u32 = match &entry.keymeld_registration_context {
        Some(context) => context.enclave_id,
        None => {
            return Err(ClaimError::NoContext);
        },
    };
    let binding: usize = match find_binding(bindings, entry.ticket_id, enclave_id) {
        Some(binding) => binding,
        None => {
            return Err(ClaimError::NoBinding);
        },
    };
    if competition.signed_contract.is_none() {
        return Err(ClaimError::NotSigned);
    }
    if competition.attestation.is_none() {
        return Err(ClaimError::NotAttested);
    }
    match owed_sats(competition, entry) {
        Ok(owed_sats) => Ok(ClaimStep::Prepare { binding, owed_sats }),
        Err(error) => Err(error),
    }
}

/// What is to be done next for a claim. `entry` and `competition` are the claim's, `payout` is its
/// payment, where it has one, and `bindings` are those of the contract, where it was bound.
pub fn process_payout_job(
    job: &PayoutJob,
    entry: &Option<UserEntry>,
    competition: &Competition,
    has_session: bool,
    payout: &Option<Payout>,
    bindings: &Option<Vec<BoundParticipant>>,
) -> (step: Result<ClaimStep, ClaimError>)
    ensures
        match claim_step(*job, *entry, *competition, has_session, *payout, *bindings) {
            Ok(expected) => step matches Ok(step) && step@ == expected,
            Err(error) => step matches Err(told) && told == error,
        },
{
    let entry = match entry {
        Some(entry) => entry,
        None => {
            return Err(ClaimError::EntryGone);
        },
    };
    if !has_session {
        return Err(ClaimError::NoSession);
    }
    if job.payout_id.is_some() {
        carry_payment_on(job, payout)
    } else {
        prepare_payment(entry, competition, bindings)
    }
}

/// What the Lightning node tells of a payment.
#[derive(Clone, Copy, PartialEq, Eq, Structural, Debug)]
pub enum PaymentStatus {
    InFlight,
    Succeeded,
    Failed,
    Unknown,
}

/// The proof of a payment was looked up: it is taken once the payment has settled.
pub fn proof_was_looked_up(status: PaymentStatus, payment_preimage: Option<String>) -> (found: Result<
    String,
    ClaimError,
>)
    ensures
        found == if status != PaymentStatus::Succeeded {
            Err::<String, ClaimError>(ClaimError::Unsettled)
        } else {
            match payment_preimage {
                Some(preimage) => Ok::<String, ClaimError>(preimage),
                None => Err::<String, ClaimError>(ClaimError::NoProof),
            }
        },
{
    if status != PaymentStatus::Succeeded {
        return Err(ClaimError::Unsettled);
    }
    match payment_preimage {
        Some(preimage) => Ok(preimage),
        None => Err(ClaimError::NoProof),
    }
}

/// What Keymeld prepared for a claim.
#[derive(Clone, Copy, PartialEq, Eq, Structural, Debug)]
pub struct PreparedClaim {
    pub claim_id: Uuid,
    pub user_id: Uuid,
    pub owed_sats: u64,
}

/// Check that what Keymeld prepared is for the claim and for what is owed. `invoice_is_owed` is
/// whether its invoice asks for that on the right network; one that has expired since is taken too,
/// so that it is found out what came of it.
pub fn claim_was_prepared(
    job: &PayoutJob,
    entry: &UserEntry,
    owed_sats: u64,
    prepared: PreparedClaim,
    invoice_is_owed: bool,
) -> (checked: Result<(), ClaimError>)
    ensures
        checked == if prepared.claim_id != job.id || prepared.user_id != entry.ticket_id
            || prepared.owed_sats != owed_sats {
            Err::<(), ClaimError>(ClaimError::NotTheClaim)
        } else if !invoice_is_owed {
            Err::<(), ClaimError>(ClaimError::WrongInvoice)
        } else {
            Ok::<(), ClaimError>(())
        },
{
    if prepared.claim_id != job.id || prepared.user_id != entry.ticket_id || prepared.owed_sats
        != owed_sats {
        return Err(ClaimError::NotTheClaim);
    }
    if !invoice_is_owed {
        return Err(ClaimError::WrongInvoice);
    }
    Ok(())
}

/// The competition's winners are paid automatically now, as far as its own state goes: its contract
/// is funded and decided, and the pot is not being paid out otherwise.
pub open spec fn pays_automatically(competition: Competition) -> bool {
    competition.attestation is Some && competition.signed_contract is Some
        && competition.funding_confirmed_at is Some && !settles_on_chain(competition)
        && competition.failed_at is None
}

/// Whether claims are to be made for a competition's winners now: its state allows it, its payouts
/// over Lightning are not closed, and it is paid out automatically.
pub fn should_queue_claims(competition: &Competition, window_closed: bool, automatic: bool) -> (should:
    bool)
    ensures
        should == (pays_automatically(*competition) && !window_closed && automatic),
{
    if competition.attestation.is_none() || competition.signed_contract.is_none()
        || competition.funding_confirmed_at.is_none() || is_settling_on_chain(competition)
        || competition.is_failed() {
        return false;
    }
    !window_closed && automatic
}

/// The terms on which a player is paid, as they agreed to them.
#[derive(Debug)]
pub struct PayoutPolicy {
    pub automatic_lightning_address: Option<String>,
    pub allow_invoice_fallback: bool,
    pub release_entry_key_after_payment: bool,
}

/// A claim is made for the entry: it won, its player gave a Lightning address, and neither was it
/// paid nor has it a claim.
pub open spec fn is_claimed_for(
    competition: Competition,
    entry: UserEntry,
    has_live_claim: bool,
    policy: Option<PayoutPolicy>,
) -> bool {
    &&& entry.paid_out_at is None
    &&& !has_live_claim
    &&& policy matches Some(policy) && policy.automatic_lightning_address is Some
    &&& owed_to(competition, entry) is Ok
}

/// Whether a claim is to be made for an entry. Where it is not known how the competition was
/// decided, or the entry's key is none, that is told.
pub fn should_claim_for(
    competition: &Competition,
    entry: &UserEntry,
    has_live_claim: bool,
    policy: &Option<PayoutPolicy>,
) -> (should: Result<bool, ClaimError>)
    ensures
        match should {
            Ok(should) => should == is_claimed_for(*competition, *entry, has_live_claim, *policy),
            Err(error) => owed_to(*competition, *entry) == Err::<nat, ClaimError>(error) && error
                != ClaimError::NotAWinner,
        },
        owed_to(*competition, *entry) is Ok ==> should is Ok,
        owed_to(*competition, *entry) == Err::<nat, ClaimError>(ClaimError::NotAWinner) ==> should
            is Ok,
        should is Err == (entry.paid_out_at is None && !has_live_claim && (policy matches Some(
            policy,
        ) && policy.automatic_lightning_address is Some) && owed_to(*competition, *entry) is Err
            && owed_to(*competition, *entry) != Err::<nat, ClaimError>(ClaimError::NotAWinner)),
{
    if entry.paid_out_at.is_some() || has_live_claim {
        return Ok(false);
    }
    match policy {
        None => {
            return Ok(false);
        },
        Some(policy) => if policy.automatic_lightning_address.is_none() {
            return Ok(false);
        },
    }
    match owed_sats(competition, entry) {
        Ok(_) => Ok(true),
        Err(error) => if error == ClaimError::NotAWinner {
            Ok(false)
        } else {
            Err(error)
        },
    }
}

/// Once a payment was entered for a claim, no other is prepared for it: whatever is done next, it is
/// not that, and the secrets are released only against a preimage of the hash that was paid to.
pub proof fn a_claim_is_paid_once(
    job: PayoutJob,
    entry: Option<UserEntry>,
    competition: Competition,
    has_session: bool,
    payout: Option<Payout>,
    bindings: Option<Vec<BoundParticipant>>,
)
    requires
        job.payout_id is Some,
    ensures
        claim_step(job, entry, competition, has_session, payout, bindings) matches Ok(step) ==> !(
        step is Prepare) && (step is Release ==> payout is Some && payout->0.succeed_at is Some
            && payout->0.failed_at is None && payout->0.payment_preimage is Some && (invoice_hash(
            payout->0.payout_payment_request@,
        ) matches Some(hash) && opened(payout->0.payment_preimage->0@, hash) is Ok)),
{
}

/// Nothing new is prepared once the pot is being paid out on-chain, and what was paid before is
/// still released then: the state of the competition does not come into it.
pub proof fn releases_outlast_the_competition(
    job: PayoutJob,
    entry: Option<UserEntry>,
    competition: Competition,
    later: Competition,
    payout: Option<Payout>,
    bindings: Option<Vec<BoundParticipant>>,
)
    ensures
        settles_on_chain(later) && job.payout_id is None ==> claim_step(
            job,
            entry,
            later,
            true,
            payout,
            bindings,
        ) is Err,
        job.payout_id is Some ==> claim_step(job, entry, later, true, payout, bindings)
            == claim_step(job, entry, competition, true, payout, bindings),
{
}

} // verus!
