//! From a full competition to a signed contract.

use crate::clock::{is_datetime, now_utc, Timestamp};
use crate::competition::{Competition, Uuid};
use crate::contract::{
    ContractParameters, EventAnnouncement, OutPoint, SigMap, SignedContract,
};
use crate::states::{CompetitionStatus, HasCompetitionData, SigningComplete};
use vstd::prelude::*;

verus! {

/// A competition whose escrows have confirmed. Its oracle event can be created at once.
#[derive(Debug)]
pub struct EscrowConfirmed {
    pub competition_id: Uuid,
    pub confirmed_at: Timestamp,
    pub competition: Competition,
}

impl EscrowConfirmed {
    /// The state of a competition that is stored in it. Where the milestone's time is not
    /// stored, `now` stands for it.
    pub open spec fn of(competition: Competition, now: Timestamp) -> Self {
        EscrowConfirmed {
            competition_id: competition.id,
            confirmed_at: match competition.escrow_funds_confirmed_at {
                Some(at) => at,
                None => now,
            },
            competition,
        }
    }

    /// Take up a stored competition.
    pub fn from_competition(competition: Competition) -> (state: Self)
        ensures
            exists|now: Timestamp| is_datetime(now as int) && state == #[trigger] Self::of(
                competition,
                now,
            ),
    {
        let now: Timestamp = now_utc();
        Self::from_competition_at(competition, now)
    }

    /// Take up a stored competition at the time `now`.
    pub fn from_competition_at(competition: Competition, now: Timestamp) -> (state: Self)
        ensures
            state == Self::of(competition, now),
    {
        EscrowConfirmed {
            competition_id: competition.id,
            confirmed_at: match competition.escrow_funds_confirmed_at {
                Some(at) => at,
                None => now,
            },
            competition,
        }
    }

    /// What `event_created` makes of this state at the time `now`.
    pub open spec fn event_created_spec(self, event_announcement: EventAnnouncement, now: Timestamp) -> CompetitionStatus {
        let competition = Competition {
            event_announcement: Some(event_announcement),
            event_created_at: Some(now),
            ..self.competition
        };
        CompetitionStatus::EventCreated(EventCreated::of(competition, now))
    }

    /// The oracle announced the event.
    pub fn event_created(self, event_announcement: EventAnnouncement) -> (next: CompetitionStatus)
        ensures
            exists|now: Timestamp|
                is_datetime(now as int) && next == #[trigger] self.event_created_spec(event_announcement, now),
    {
        let now: Timestamp = now_utc();
        self.event_created_at(event_announcement, now)
    }

    /// `event_created` at the time `now`.
    pub fn event_created_at(self, event_announcement: EventAnnouncement, now: Timestamp) -> (next: CompetitionStatus)
        ensures
            next == self.event_created_spec(event_announcement, now),
    {
        let mut competition = self.competition;
        competition.event_announcement = Some(event_announcement);
        competition.event_created_at = Some(now);
        CompetitionStatus::EventCreated(EventCreated::from_competition_at(competition, now))
    }
}

impl HasCompetitionData for EscrowConfirmed {
    open spec fn data(&self) -> Competition {
        self.competition
    }

    fn competition(&self) -> (competition: &Competition) {
        &self.competition
    }

    fn competition_mut(&mut self) -> (competition: &mut Competition)
        ensures
            *final(self) == (EscrowConfirmed { competition: *final(competition), ..*old(self) }),
    {
        &mut self.competition
    }

    fn into_competition(self) -> (competition: Competition) {
        self.competition
    }
}

/// A competition whose oracle event exists. Its entries can be sent to the oracle at once.
#[derive(Debug)]
pub struct EventCreated {
    pub competition_id: Uuid,
    pub event_created_at: Timestamp,
    pub competition: Competition,
}

impl EventCreated {
    /// The state of a competition that is stored in it. Where the milestone's time is not
    /// stored, `now` stands for it.
    pub open spec fn of(competition: Competition, now: Timestamp) -> Self {
        EventCreated {
            competition_id: competition.id,
            event_created_at: match competition.event_created_at {
                Some(at) => at,
                None => now,
            },
            competition,
        }
    }

    /// Take up a stored competition.
    pub fn from_competition(competition: Competition) -> (state: Self)
        ensures
            exists|now: Timestamp| is_datetime(now as int) && state == #[trigger] Self::of(
                competition,
                now,
            ),
    {
        let now: Timestamp = now_utc();
        Self::from_competition_at(competition, now)
    }

    /// Take up a stored competition at the time `now`.
    pub fn from_competition_at(competition: Competition, now: Timestamp) -> (state: Self)
        ensures
            state == Self::of(competition, now),
    {
        EventCreated {
            competition_id: competition.id,
            event_created_at: match competition.event_created_at {
                Some(at) => at,
                None => now,
            },
            competition,
        }
    }

    /// What `entries_submitted` makes of this state at the time `now`.
    pub open spec fn entries_submitted_spec(self, now: Timestamp) -> CompetitionStatus {
        let competition = Competition {
            entries_submitted_at: Some(now),
            ..self.competition
        };
        CompetitionStatus::EntriesSubmitted(EntriesSubmitted::of(competition, now))
    }

    /// The oracle took the entries.
    pub fn entries_submitted(self) -> (next: CompetitionStatus)
        ensures
            exists|now: Timestamp|
                is_datetime(now as int) && next == #[trigger] self.entries_submitted_spec(now),
    {
        let now: Timestamp = now_utc();
        self.entries_submitted_at(now)
    }

    /// `entries_submitted` at the time `now`.
    pub fn entries_submitted_at(self, now: Timestamp) -> (next: CompetitionStatus)
        ensures
            next == self.entries_submitted_spec(now),
    {
        let mut competition = self.competition;
        competition.entries_submitted_at = Some(now);
        CompetitionStatus::EntriesSubmitted(EntriesSubmitted::from_competition_at(competition, now))
    }
}

impl HasCompetitionData for EventCreated {
    open spec fn data(&self) -> Competition {
        self.competition
    }

    fn competition(&self) -> (competition: &Competition) {
        &self.competition
    }

    fn competition_mut(&mut self) -> (competition: &mut Competition)
        ensures
            *final(self) == (EventCreated { competition: *final(competition), ..*old(self) }),
    {
        &mut self.competition
    }

    fn into_competition(self) -> (competition: Competition) {
        self.competition
    }
}

/// A competition whose entries the oracle holds. Its contract and funding transaction can be
/// built at once.
#[derive(Debug)]
pub struct EntriesSubmitted {
    pub competition_id: Uuid,
    pub entries_submitted_at: Timestamp,
    pub competition: Competition,
}

impl EntriesSubmitted {
    /// The state of a competition that is stored in it. Where the milestone's time is not
    /// stored, `now` stands for it.
    pub open spec fn of(competition: Competition, now: Timestamp) -> Self {
        EntriesSubmitted {
            competition_id: competition.id,
            entries_submitted_at: match competition.entries_submitted_at {
                Some(at) => at,
                None => now,
            },
            competition,
        }
    }

    /// Take up a stored competition.
    pub fn from_competition(competition: Competition) -> (state: Self)
        ensures
            exists|now: Timestamp| is_datetime(now as int) && state == #[trigger] Self::of(
                competition,
                now,
            ),
    {
        let now: Timestamp = now_utc();
        Self::from_competition_at(competition, now)
    }

    /// Take up a stored competition at the time `now`.
    pub fn from_competition_at(competition: Competition, now: Timestamp) -> (state: Self)
        ensures
            state == Self::of(competition, now),
    {
        EntriesSubmitted {
            competition_id: competition.id,
            entries_submitted_at: match competition.entries_submitted_at {
                Some(at) => at,
                None => now,
            },
            competition,
        }
    }

    /// What `contract_created` makes of this state at the time `now`.
    pub open spec fn contract_created_spec(self, contract_params: ContractParameters, funding_outpoint: OutPoint, funding_psbt_base64: String, now: Timestamp) -> CompetitionStatus {
        let competition = Competition {
            contract_parameters: Some(contract_params),
            funding_outpoint: Some(funding_outpoint),
            funding_psbt_base64: Some(funding_psbt_base64),
            contracted_at: Some(now),
            ..self.competition
        };
        CompetitionStatus::ContractCreated(ContractCreated::of(competition, now))
    }

    /// The contract and its unsigned funding transaction were built.
    pub fn contract_created(self, contract_params: ContractParameters, funding_outpoint: OutPoint, funding_psbt_base64: String) -> (next: CompetitionStatus)
        ensures
            exists|now: Timestamp|
                is_datetime(now as int) && next == #[trigger] self.contract_created_spec(contract_params, funding_outpoint, funding_psbt_base64, now),
    {
        let now: Timestamp = now_utc();
        self.contract_created_at(contract_params, funding_outpoint, funding_psbt_base64, now)
    }

    /// `contract_created` at the time `now`.
    pub fn contract_created_at(self, contract_params: ContractParameters, funding_outpoint: OutPoint, funding_psbt_base64: String, now: Timestamp) -> (next: CompetitionStatus)
        ensures
            next == self.contract_created_spec(contract_params, funding_outpoint, funding_psbt_base64, now),
    {
        let mut competition = self.competition;
        competition.contract_parameters = Some(contract_params);
        competition.funding_outpoint = Some(funding_outpoint);
        competition.funding_psbt_base64 = Some(funding_psbt_base64);
        competition.contracted_at = Some(now);
        CompetitionStatus::ContractCreated(ContractCreated::from_competition_at(competition, now))
    }
}

impl HasCompetitionData for EntriesSubmitted {
    open spec fn data(&self) -> Competition {
        self.competition
    }

    fn competition(&self) -> (competition: &Competition) {
        &self.competition
    }

    fn competition_mut(&mut self) -> (competition: &mut Competition)
        ensures
            *final(self) == (EntriesSubmitted { competition: *final(competition), ..*old(self) }),
    {
        &mut self.competition
    }

    fn into_competition(self) -> (competition: Competition) {
        self.competition
    }
}

/// A competition whose contract is built, and waits for what signing it needs.
#[derive(Debug)]
pub struct ContractCreated {
    pub competition_id: Uuid,
    pub contracted_at: Timestamp,
    pub competition: Competition,
}

impl ContractCreated {
    /// The state of a competition that is stored in it. Where the milestone's time is not
    /// stored, `now` stands for it.
    pub open spec fn of(competition: Competition, now: Timestamp) -> Self {
        ContractCreated {
            competition_id: competition.id,
            contracted_at: match competition.contracted_at {
                Some(at) => at,
                None => now,
            },
            competition,
        }
    }

    /// Take up a stored competition.
    pub fn from_competition(competition: Competition) -> (state: Self)
        ensures
            exists|now: Timestamp| is_datetime(now as int) && state == #[trigger] Self::of(
                competition,
                now,
            ),
    {
        let now: Timestamp = now_utc();
        Self::from_competition_at(competition, now)
    }

    /// Take up a stored competition at the time `now`.
    pub fn from_competition_at(competition: Competition, now: Timestamp) -> (state: Self)
        ensures
            state == Self::of(competition, now),
    {
        ContractCreated {
            competition_id: competition.id,
            contracted_at: match competition.contracted_at {
                Some(at) => at,
                None => now,
            },
            competition,
        }
    }

    /// The nonces that the coordinator signs with were made.
    pub fn nonces_generated(self, public_nonces: SigMap) -> (next: CompetitionStatus)
        ensures
            next == CompetitionStatus::AwaitingSignatures(
                AwaitingSignatures::of(
                    Competition { public_nonces: Some(public_nonces), ..self.competition },
                ),
            ),
    {
        let mut competition = self.competition;
        competition.public_nonces = Some(public_nonces);
        CompetitionStatus::AwaitingSignatures(AwaitingSignatures::from_competition(competition))
    }

    /// The nonces that the coordinator signs with exist.
    pub fn has_nonces(&self) -> (has: bool)
        ensures
            has == (self.competition.public_nonces is Some),
    {
        self.competition.public_nonces.is_some()
    }
}

impl HasCompetitionData for ContractCreated {
    open spec fn data(&self) -> Competition {
        self.competition
    }

    fn competition(&self) -> (competition: &Competition) {
        &self.competition
    }

    fn competition_mut(&mut self) -> (competition: &mut Competition)
        ensures
            *final(self) == (ContractCreated { competition: *final(competition), ..*old(self) }),
    {
        &mut self.competition
    }

    fn into_competition(self) -> (competition: Competition) {
        self.competition
    }
}

/// A competition whose contract is being signed.
#[derive(Debug)]
pub struct AwaitingSignatures {
    pub competition_id: Uuid,
    pub competition: Competition,
}

impl AwaitingSignatures {
    /// The state of a competition that is stored in it.
    pub open spec fn of(competition: Competition) -> Self {
        AwaitingSignatures { competition_id: competition.id, competition }
    }

    /// Take up a stored competition.
    pub fn from_competition(competition: Competition) -> (state: Self)
        ensures
            state == Self::of(competition),
    {
        AwaitingSignatures { competition_id: competition.id, competition }
    }

    /// Every player sent their nonces.
    pub fn has_all_nonces(&self) -> (all: bool)
        ensures
            all == (self.competition.total_entry_nonces
                >= self.competition.event_submission.total_allowed_entries),
    {
        self.competition.has_all_entry_nonces()
    }

    /// Every player sent their partial signatures.
    pub fn has_all_signatures(&self) -> (all: bool)
        ensures
            all == (self.competition.total_entry_partial_signatures
                >= self.competition.event_submission.total_allowed_entries),
    {
        self.competition.has_all_entry_partial_signatures()
    }

    /// The contract is signed already.
    pub fn is_signed(&self) -> (signed: bool)
        ensures
            signed == (self.competition.signed_contract is Some),
    {
        self.competition.signed_contract.is_some()
    }

    /// The time to send nonces and signatures is over, as of `now`.
    pub fn is_expired_at(&self, now: Timestamp) -> (expired: bool)
        ensures
            expired == (self.competition.signed_at is None && now
                >= self.competition.event_submission.start_observation_date),
    {
        self.competition.is_expired(now)
    }

    /// The time to send nonces and signatures is over.
    pub fn is_expired(&self) -> (expired: bool)
        ensures
            exists|now: Timestamp|
                #![trigger is_datetime(now as int)]
                is_datetime(now as int) && expired == (self.competition.signed_at is None && now
                    >= self.competition.event_submission.start_observation_date),
    {
        let now: Timestamp = now_utc();
        self.is_expired_at(now)
    }

    /// What `signing_complete` makes of this state at the time `now`.
    pub open spec fn signing_complete_spec(self, signed_contract: SignedContract, now: Timestamp) -> CompetitionStatus {
        let competition = Competition {
            signed_contract: Some(signed_contract),
            signed_at: Some(now),
            ..self.competition
        };
        CompetitionStatus::SigningComplete(SigningComplete::of(competition, now))
    }

    /// The contract is fully signed.
    pub fn signing_complete(self, signed_contract: SignedContract) -> (next: CompetitionStatus)
        ensures
            exists|now: Timestamp|
                is_datetime(now as int) && next == #[trigger] self.signing_complete_spec(signed_contract, now),
    {
        let now: Timestamp = now_utc();
        self.signing_complete_at(signed_contract, now)
    }

    /// `signing_complete` at the time `now`.
    pub fn signing_complete_at(self, signed_contract: SignedContract, now: Timestamp) -> (next: CompetitionStatus)
        ensures
            next == self.signing_complete_spec(signed_contract, now),
    {
        let mut competition = self.competition;
        competition.signed_contract = Some(signed_contract);
        competition.signed_at = Some(now);
        CompetitionStatus::SigningComplete(SigningComplete::from_competition_at(competition, now))
    }
}

impl HasCompetitionData for AwaitingSignatures {
    open spec fn data(&self) -> Competition {
        self.competition
    }

    fn competition(&self) -> (competition: &Competition) {
        &self.competition
    }

    fn competition_mut(&mut self) -> (competition: &mut Competition)
        ensures
            *final(self) == (AwaitingSignatures { competition: *final(competition), ..*old(self) }),
    {
        &mut self.competition
    }

    fn into_competition(self) -> (competition: Competition) {
        self.competition
    }
}

} // verus!
