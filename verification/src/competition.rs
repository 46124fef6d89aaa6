//! A competition, as it is stored, and the state that its stored fields imply.

use crate::clock::Timestamp;
use crate::contract::{
    ContractParameters, EventAnnouncement, OutPoint, SigMap, SignedContract, Transaction,
};
use vstd::prelude::*;

verus! {

/// The 128 bits of a UUID.
pub type Uuid = u128;

/// What a competition was created with.
#[derive(Debug)]
pub struct CreateEvent {
    pub id: Uuid,
    pub signing_date: Timestamp,
    pub start_observation_date: Timestamp,
    pub end_observation_date: Timestamp,
    pub locations: Vec<String>,
    pub number_of_values_per_entry: usize,
    pub number_of_places_win: usize,
    pub total_allowed_entries: usize,
    pub entry_fee: usize,
    pub coordinator_fee_percentage: usize,
    pub total_competition_pool: usize,
    pub relative_locktime_block_delta: Option<u16>,
    pub unlisted: bool,
}

/// Why a step of a competition went wrong.
#[derive(Debug)]
pub enum CompetitionError {
    FailedEscrowConfirmation(String),
    FailedCreateEvent(String),
    FailedSubmitEntries(String),
    FailedCreateTransaction(String),
    FailedNonceAggregation(String),
    FailedBroadcast(String),
    FailedFundingConfirmation(String),
    FailedCheckingAttestation(String),
    InvalidStateTransition(String),
}

impl CompetitionError {
    /// The same error once more.
    pub fn duplicate(&self) -> (copy: Self)
        ensures
            copy == *self,
    {
        match self {
            CompetitionError::FailedEscrowConfirmation(message) => {
                CompetitionError::FailedEscrowConfirmation(message.clone())
            },
            CompetitionError::FailedCreateEvent(message) => {
                CompetitionError::FailedCreateEvent(message.clone())
            },
            CompetitionError::FailedSubmitEntries(message) => {
                CompetitionError::FailedSubmitEntries(message.clone())
            },
            CompetitionError::FailedCreateTransaction(message) => {
                CompetitionError::FailedCreateTransaction(message.clone())
            },
            CompetitionError::FailedNonceAggregation(message) => {
                CompetitionError::FailedNonceAggregation(message.clone())
            },
            CompetitionError::FailedBroadcast(message) => {
                CompetitionError::FailedBroadcast(message.clone())
            },
            CompetitionError::FailedFundingConfirmation(message) => {
                CompetitionError::FailedFundingConfirmation(message.clone())
            },
            CompetitionError::FailedCheckingAttestation(message) => {
                CompetitionError::FailedCheckingAttestation(message.clone())
            },
            CompetitionError::InvalidStateTransition(message) => {
                CompetitionError::InvalidStateTransition(message.clone())
            },
        }
    }
}

/// The state that a competition's stored fields imply.
#[derive(Clone, Copy, PartialEq, Eq, Structural, Debug)]
pub enum CompetitionState {
    Created,
    EntriesCollected,
    EscrowFundsConfirmed,
    EventCreated,
    EntriesSubmitted,
    ContractCreated,
    AwaitingSignatures,
    SigningComplete,
    FundingBroadcasted,
    FundingConfirmed,
    FundingSettled,
    AwaitingAttestation,
    Attested,
    ExpiryBroadcasted,
    OutcomeBroadcasted,
    DeltaBroadcasted,
    Completed,
    Failed,
    Cancelled,
}

/// A competition and everything stored about it. Each `*_at` field is set when the competition
/// reaches that milestone.
#[derive(Debug)]
pub struct Competition {
    pub id: Uuid,
    pub created_at: Timestamp,
    pub event_submission: CreateEvent,
    pub total_entries: u64,
    pub total_paid_entries: u64,
    pub total_entry_nonces: u64,
    pub total_entry_partial_signatures: u64,
    pub event_announcement: Option<EventAnnouncement>,
    pub event_created_at: Option<Timestamp>,
    pub entries_submitted_at: Option<Timestamp>,
    pub escrow_funds_confirmed_at: Option<Timestamp>,
    pub contract_parameters: Option<ContractParameters>,
    pub funding_outpoint: Option<OutPoint>,
    pub funding_psbt_base64: Option<String>,
    pub contracted_at: Option<Timestamp>,
    pub public_nonces: Option<SigMap>,
    pub aggregated_nonces: Option<SigMap>,
    pub partial_signatures: Option<SigMap>,
    pub keymeld_keygen_completed_at: Option<Timestamp>,
    pub signed_contract: Option<SignedContract>,
    pub signed_at: Option<Timestamp>,
    pub funding_transaction: Option<Transaction>,
    pub funding_broadcasted_at: Option<Timestamp>,
    pub funding_confirmed_at: Option<Timestamp>,
    pub funding_settled_at: Option<Timestamp>,
    pub invoices_settled_at: Option<Timestamp>,
    pub awaiting_attestation_at: Option<Timestamp>,
    pub attestation: Option<Vec<u8>>,
    pub outcome_transaction: Option<Transaction>,
    pub outcome_broadcasted_at: Option<Timestamp>,
    pub delta_broadcasted_at: Option<Timestamp>,
    pub expiry_broadcasted_at: Option<Timestamp>,
    pub completed_at: Option<Timestamp>,
    pub cancelled_at: Option<Timestamp>,
    pub failed_at: Option<Timestamp>,
    pub errors: Vec<CompetitionError>,
}

impl Competition {
    /// Every place is taken.
    pub open spec fn full(self) -> bool {
        self.total_entries >= self.event_submission.total_allowed_entries
    }

    /// Every place is paid for.
    pub open spec fn all_paid(self) -> bool {
        self.total_paid_entries >= self.event_submission.total_allowed_entries
    }

    /// The latest milestone that is set names the state. A cancelled competition stays cancelled
    /// and a failed one failed, however far it had come.
    pub open spec fn state(self) -> CompetitionState {
        if self.cancelled_at is Some {
            CompetitionState::Cancelled
        } else if self.failed_at is Some {
            CompetitionState::Failed
        } else if self.completed_at is Some {
            CompetitionState::Completed
        } else if self.delta_broadcasted_at is Some {
            CompetitionState::DeltaBroadcasted
        } else if self.outcome_broadcasted_at is Some {
            CompetitionState::OutcomeBroadcasted
        } else if self.expiry_broadcasted_at is Some {
            CompetitionState::ExpiryBroadcasted
        } else if self.attestation is Some {
            CompetitionState::Attested
        } else if self.awaiting_attestation_at is Some {
            CompetitionState::AwaitingAttestation
        } else if self.funding_settled_at is Some {
            CompetitionState::FundingSettled
        } else if self.funding_confirmed_at is Some {
            CompetitionState::FundingConfirmed
        } else if self.funding_broadcasted_at is Some {
            CompetitionState::FundingBroadcasted
        } else if self.signed_at is Some {
            CompetitionState::SigningComplete
        } else if self.keymeld_keygen_completed_at is Some {
            CompetitionState::AwaitingSignatures
        } else if self.contracted_at is Some {
            CompetitionState::ContractCreated
        } else if self.entries_submitted_at is Some {
            CompetitionState::EntriesSubmitted
        } else if self.event_created_at is Some {
            CompetitionState::EventCreated
        } else if self.escrow_funds_confirmed_at is Some {
            CompetitionState::EscrowFundsConfirmed
        } else if self.full() && self.all_paid() {
            CompetitionState::EntriesCollected
        } else {
            CompetitionState::Created
        }
    }

    /// Its contract holds the pot on-chain: the funding confirmed, and neither a settlement nor
    /// an expiry has finished.
    pub open spec fn holds_pot(self) -> bool {
        self.funding_confirmed_at is Some && self.completed_at is None
            && self.expiry_broadcasted_at is None
    }

    /// Stopped as failed or cancelled while its contract holds the pot.
    pub open spec fn stranded(self) -> bool {
        (self.failed_at is Some || self.cancelled_at is Some) && self.holds_pot()
    }

    /// A new competition, with nothing of it reached yet.
    pub fn new(event: CreateEvent, now: Timestamp) -> (competition: Self)
        ensures
            competition.id == event.id,
            competition.event_submission == event,
            competition.created_at == now,
            competition.total_entries == 0,
            competition.total_paid_entries == 0,
            competition.total_entry_nonces == 0,
            competition.total_entry_partial_signatures == 0,
            competition.errors@.len() == 0,
            competition.event_announcement is None,
            competition.contract_parameters is None,
            competition.funding_outpoint is None,
            competition.funding_psbt_base64 is None,
            competition.public_nonces is None,
            competition.aggregated_nonces is None,
            competition.partial_signatures is None,
            competition.signed_contract is None,
            competition.funding_transaction is None,
            competition.invoices_settled_at is None,
            competition.outcome_transaction is None,
            !competition.holds_pot(),
            competition.state() == if event.total_allowed_entries > 0 {
                CompetitionState::Created
            } else {
                CompetitionState::EntriesCollected
            },
    {
        Competition {
            id: event.id,
            created_at: now,
            event_submission: event,
            total_entries: 0,
            total_paid_entries: 0,
            total_entry_nonces: 0,
            total_entry_partial_signatures: 0,
            event_announcement: None,
            event_created_at: None,
            entries_submitted_at: None,
            escrow_funds_confirmed_at: None,
            contract_parameters: None,
            funding_outpoint: None,
            funding_psbt_base64: None,
            contracted_at: None,
            public_nonces: None,
            aggregated_nonces: None,
            partial_signatures: None,
            keymeld_keygen_completed_at: None,
            signed_contract: None,
            signed_at: None,
            funding_transaction: None,
            funding_broadcasted_at: None,
            funding_confirmed_at: None,
            funding_settled_at: None,
            invoices_settled_at: None,
            awaiting_attestation_at: None,
            attestation: None,
            outcome_transaction: None,
            outcome_broadcasted_at: None,
            delta_broadcasted_at: None,
            expiry_broadcasted_at: None,
            completed_at: None,
            cancelled_at: None,
            failed_at: None,
            errors: Vec::new(),
        }
    }

    /// The state that the stored fields imply.
    pub fn get_state(&self) -> (state: CompetitionState)
        ensures
            state == self.state(),
    {
        if self.cancelled_at.is_some() {
            CompetitionState::Cancelled
        } else if self.failed_at.is_some() {
            CompetitionState::Failed
        } else if self.completed_at.is_some() {
            CompetitionState::Completed
        } else if self.delta_broadcasted_at.is_some() {
            CompetitionState::DeltaBroadcasted
        } else if self.outcome_broadcasted_at.is_some() {
            CompetitionState::OutcomeBroadcasted
        } else if self.expiry_broadcasted_at.is_some() {
            CompetitionState::ExpiryBroadcasted
        } else if self.attestation.is_some() {
            CompetitionState::Attested
        } else if self.awaiting_attestation_at.is_some() {
            CompetitionState::AwaitingAttestation
        } else if self.funding_settled_at.is_some() {
            CompetitionState::FundingSettled
        } else if self.funding_confirmed_at.is_some() {
            CompetitionState::FundingConfirmed
        } else if self.funding_broadcasted_at.is_some() {
            CompetitionState::FundingBroadcasted
        } else if self.signed_at.is_some() {
            CompetitionState::SigningComplete
        } else if self.keymeld_keygen_completed_at.is_some() {
            CompetitionState::AwaitingSignatures
        } else if self.contracted_at.is_some() {
            CompetitionState::ContractCreated
        } else if self.entries_submitted_at.is_some() {
            CompetitionState::EntriesSubmitted
        } else if self.event_created_at.is_some() {
            CompetitionState::EventCreated
        } else if self.escrow_funds_confirmed_at.is_some() {
            CompetitionState::EscrowFundsConfirmed
        } else if self.has_full_entries() && self.has_all_entries_paid() {
            CompetitionState::EntriesCollected
        } else {
            CompetitionState::Created
        }
    }

    /// Every place is taken.
    pub fn has_full_entries(&self) -> (full: bool)
        ensures
            full == self.full(),
    {
        self.total_entries >= self.event_submission.total_allowed_entries as u64
    }

    /// Every place is paid for.
    pub fn has_all_entries_paid(&self) -> (paid: bool)
        ensures
            paid == self.all_paid(),
    {
        self.total_paid_entries >= self.event_submission.total_allowed_entries as u64
    }

    /// Every player sent their nonces.
    pub fn has_all_entry_nonces(&self) -> (all: bool)
        ensures
            all == (self.total_entry_nonces >= self.event_submission.total_allowed_entries),
    {
        self.total_entry_nonces >= self.event_submission.total_allowed_entries as u64
    }

    /// Every player sent their partial signatures.
    pub fn has_all_entry_partial_signatures(&self) -> (all: bool)
        ensures
            all == (self.total_entry_partial_signatures
                >= self.event_submission.total_allowed_entries),
    {
        self.total_entry_partial_signatures >= self.event_submission.total_allowed_entries as u64
    }

    pub fn is_cancelled(&self) -> (cancelled: bool)
        ensures
            cancelled == (self.cancelled_at is Some),
    {
        self.cancelled_at.is_some()
    }

    pub fn is_failed(&self) -> (failed: bool)
        ensures
            failed == (self.failed_at is Some),
    {
        self.failed_at.is_some()
    }

    pub fn is_completed(&self) -> (completed: bool)
        ensures
            completed == (self.completed_at is Some),
    {
        self.completed_at.is_some()
    }

    pub fn is_expiry_broadcasted(&self) -> (broadcasted: bool)
        ensures
            broadcasted == (self.expiry_broadcasted_at is Some),
    {
        self.expiry_broadcasted_at.is_some()
    }

    /// Nothing is left to step: it was cancelled, failed, completed, or its contract expired.
    pub fn skip_competition(&self) -> (skip: bool)
        ensures
            skip == (self.cancelled_at is Some || self.failed_at is Some || self.completed_at
                is Some || self.expiry_broadcasted_at is Some),
    {
        self.is_cancelled() || self.is_failed() || self.is_completed()
            || self.is_expiry_broadcasted()
    }

    /// Its observation window opened before its contract was signed, so it cannot be played.
    pub fn is_expired(&self, now: Timestamp) -> (expired: bool)
        ensures
            expired == (self.signed_at is None && now
                >= self.event_submission.start_observation_date),
    {
        self.signed_at.is_none() && now >= self.event_submission.start_observation_date
    }

    /// So many steps went wrong in a row that the competition is given up: more than `tolerated`.
    pub fn should_abort(&self, tolerated: usize) -> (abort: bool)
        ensures
            abort == (self.errors@.len() > tolerated),
    {
        self.errors.len() > tolerated
    }

    /// Pick a competition up again that was stopped while its contract holds the pot on-chain:
    /// it is no longer failed or cancelled, so it settles from where it had come to.
    pub fn resume_stranded_settlement(&mut self) -> (resumed: bool)
        ensures
            resumed == old(self).stranded(),
            resumed ==> *final(self) == (Competition {
                failed_at: None,
                cancelled_at: None,
                ..*old(self)
            }),
            !resumed ==> *final(self) == *old(self),
            !final(self).stranded(),
    {
        let stopped: bool = self.failed_at.is_some() || self.cancelled_at.is_some();
        if stopped && self.funding_confirmed_at.is_some() && self.completed_at.is_none()
            && self.expiry_broadcasted_at.is_none() {
            self.failed_at = None;
            self.cancelled_at = None;
            true
        } else {
            false
        }
    }
}

} // verus!
