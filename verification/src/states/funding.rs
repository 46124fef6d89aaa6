//! From a signed contract to a funded one.

use crate::clock::{is_datetime, now_utc, Timestamp};
use crate::competition::{Competition, Uuid};
use crate::contract::Transaction;
use crate::states::{AwaitingAttestation, CompetitionStatus, HasCompetitionData};
use vstd::prelude::*;

verus! {

/// A competition whose contract is signed. Its funding transaction can be signed and broadcast
/// at once.
#[derive(Debug)]
pub struct SigningComplete {
    pub competition_id: Uuid,
    pub signed_at: Timestamp,
    pub competition: Competition,
}

impl SigningComplete {
    /// The state of a competition that is stored in it. Where the milestone's time is not
    /// stored, `now` stands for it.
    pub open spec fn of(competition: Competition, now: Timestamp) -> Self {
        SigningComplete {
            competition_id: competition.id,
            signed_at: match competition.signed_at {
                Some(at) => at,
                None => now,
            },
            competition,
        }
    }

    /// Take up a stored competition.
    pub fn from_competition(competition: Competition) -> (state: Self)
        ensures
            exists|now: Timestamp| is_datetime(now as int) && state == #[trigger] Self::of(
                competition,
                now,
            ),
    {
        let now: Timestamp = now_utc();
        Self::from_competition_at(competition, now)
    }

    /// Take up a stored competition at the time `now`.
    pub fn from_competition_at(competition: Competition, now: Timestamp) -> (state: Self)
        ensures
            state == Self::of(competition, now),
    {
        SigningComplete {
            competition_id: competition.id,
            signed_at: match competition.signed_at {
                Some(at) => at,
                None => now,
            },
            competition,
        }
    }

    /// What `funding_broadcasted` makes of this state at the time `now`.
    pub open spec fn funding_broadcasted_spec(self, funding_tx: Transaction, now: Timestamp) -> CompetitionStatus {
        let competition = Competition {
            funding_transaction: Some(funding_tx),
            funding_broadcasted_at: Some(now),
            ..self.competition
        };
        CompetitionStatus::FundingBroadcasted(FundingBroadcasted::of(competition, now))
    }

    /// The funding transaction was broadcast.
    pub fn funding_broadcasted(self, funding_tx: Transaction) -> (next: CompetitionStatus)
        ensures
            exists|now: Timestamp|
                is_datetime(now as int) && next == #[trigger] self.funding_broadcasted_spec(funding_tx, now),
    {
        let now: Timestamp = now_utc();
        self.funding_broadcasted_at(funding_tx, now)
    }

    /// `funding_broadcasted` at the time `now`.
    pub fn funding_broadcasted_at(self, funding_tx: Transaction, now: Timestamp) -> (next: CompetitionStatus)
        ensures
            next == self.funding_broadcasted_spec(funding_tx, now),
    {
        let mut competition = self.competition;
        competition.funding_transaction = Some(funding_tx);
        competition.funding_broadcasted_at = Some(now);
        CompetitionStatus::FundingBroadcasted(FundingBroadcasted::from_competition_at(competition, now))
    }
}

impl HasCompetitionData for SigningComplete {
    open spec fn data(&self) -> Competition {
        self.competition
    }

    fn competition(&self) -> (competition: &Competition) {
        &self.competition
    }

    fn competition_mut(&mut self) -> (competition: &mut Competition)
        ensures
            *final(self) == (SigningComplete { competition: *final(competition), ..*old(self) }),
    {
        &mut self.competition
    }

    fn into_competition(self) -> (competition: Competition) {
        self.competition
    }
}

/// A competition whose funding transaction waits to be confirmed.
#[derive(Debug)]
pub struct FundingBroadcasted {
    pub competition_id: Uuid,
    pub broadcasted_at: Timestamp,
    pub competition: Competition,
}

impl FundingBroadcasted {
    /// The state of a competition that is stored in it. Where the milestone's time is not
    /// stored, `now` stands for it.
    pub open spec fn of(competition: Competition, now: Timestamp) -> Self {
        FundingBroadcasted {
            competition_id: competition.id,
            broadcasted_at: match competition.funding_broadcasted_at {
                Some(at) => at,
                None => now,
            },
            competition,
        }
    }

    /// Take up a stored competition.
    pub fn from_competition(competition: Competition) -> (state: Self)
        ensures
            exists|now: Timestamp| is_datetime(now as int) && state == #[trigger] Self::of(
                competition,
                now,
            ),
    {
        let now: Timestamp = now_utc();
        Self::from_competition_at(competition, now)
    }

    /// Take up a stored competition at the time `now`.
    pub fn from_competition_at(competition: Competition, now: Timestamp) -> (state: Self)
        ensures
            state == Self::of(competition, now),
    {
        FundingBroadcasted {
            competition_id: competition.id,
            broadcasted_at: match competition.funding_broadcasted_at {
                Some(at) => at,
                None => now,
            },
            competition,
        }
    }

    /// What `funding_confirmed` makes of this state at the time `now`.
    pub open spec fn funding_confirmed_spec(self, now: Timestamp) -> CompetitionStatus {
        let competition = Competition {
            funding_confirmed_at: Some(now),
            ..self.competition
        };
        CompetitionStatus::FundingConfirmed(FundingConfirmed::of(competition, now))
    }

    /// The funding transaction has enough confirmations.
    pub fn funding_confirmed(self) -> (next: CompetitionStatus)
        ensures
            exists|now: Timestamp|
                is_datetime(now as int) && next == #[trigger] self.funding_confirmed_spec(now),
    {
        let now: Timestamp = now_utc();
        self.funding_confirmed_at(now)
    }

    /// `funding_confirmed` at the time `now`.
    pub fn funding_confirmed_at(self, now: Timestamp) -> (next: CompetitionStatus)
        ensures
            next == self.funding_confirmed_spec(now),
    {
        let mut competition = self.competition;
        competition.funding_confirmed_at = Some(now);
        CompetitionStatus::FundingConfirmed(FundingConfirmed::from_competition_at(competition, now))
    }

    /// The funding transaction, to look up its confirmations.
    pub fn funding_transaction(&self) -> (transaction: Option<&Transaction>)
        ensures
            match self.competition.funding_transaction {
                Some(stored) => transaction == Some(&stored),
                None => transaction is None,
            },
    {
        self.competition.funding_transaction.as_ref()
    }
}

impl HasCompetitionData for FundingBroadcasted {
    open spec fn data(&self) -> Competition {
        self.competition
    }

    fn competition(&self) -> (competition: &Competition) {
        &self.competition
    }

    fn competition_mut(&mut self) -> (competition: &mut Competition)
        ensures
            *final(self) == (FundingBroadcasted { competition: *final(competition), ..*old(self) }),
    {
        &mut self.competition
    }

    fn into_competition(self) -> (competition: Competition) {
        self.competition
    }
}

/// A competition whose contract is funded. It moves on at once.
#[derive(Debug)]
pub struct FundingConfirmed {
    pub competition_id: Uuid,
    pub confirmed_at: Timestamp,
    pub competition: Competition,
}

impl FundingConfirmed {
    /// The state of a competition that is stored in it. Where the milestone's time is not
    /// stored, `now` stands for it.
    pub open spec fn of(competition: Competition, now: Timestamp) -> Self {
        FundingConfirmed {
            competition_id: competition.id,
            confirmed_at: match competition.funding_confirmed_at {
                Some(at) => at,
                None => now,
            },
            competition,
        }
    }

    /// Take up a stored competition.
    pub fn from_competition(competition: Competition) -> (state: Self)
        ensures
            exists|now: Timestamp| is_datetime(now as int) && state == #[trigger] Self::of(
                competition,
                now,
            ),
    {
        let now: Timestamp = now_utc();
        Self::from_competition_at(competition, now)
    }

    /// Take up a stored competition at the time `now`.
    pub fn from_competition_at(competition: Competition, now: Timestamp) -> (state: Self)
        ensures
            state == Self::of(competition, now),
    {
        FundingConfirmed {
            competition_id: competition.id,
            confirmed_at: match competition.funding_confirmed_at {
                Some(at) => at,
                None => now,
            },
            competition,
        }
    }

    /// What `funding_settled` makes of this state at the time `now`.
    pub open spec fn funding_settled_spec(self, now: Timestamp) -> CompetitionStatus {
        let competition = Competition {
            funding_settled_at: Some(now),
            ..self.competition
        };
        CompetitionStatus::FundingSettled(FundingSettled::of(competition, now))
    }

    /// The players' invoices are settled.
    pub fn funding_settled(self) -> (next: CompetitionStatus)
        ensures
            exists|now: Timestamp|
                is_datetime(now as int) && next == #[trigger] self.funding_settled_spec(now),
    {
        let now: Timestamp = now_utc();
        self.funding_settled_at(now)
    }

    /// `funding_settled` at the time `now`.
    pub fn funding_settled_at(self, now: Timestamp) -> (next: CompetitionStatus)
        ensures
            next == self.funding_settled_spec(now),
    {
        let mut competition = self.competition;
        competition.funding_settled_at = Some(now);
        CompetitionStatus::FundingSettled(FundingSettled::from_competition_at(competition, now))
    }
}

impl HasCompetitionData for FundingConfirmed {
    open spec fn data(&self) -> Competition {
        self.competition
    }

    fn competition(&self) -> (competition: &Competition) {
        &self.competition
    }

    fn competition_mut(&mut self) -> (competition: &mut Competition)
        ensures
            *final(self) == (FundingConfirmed { competition: *final(competition), ..*old(self) }),
    {
        &mut self.competition
    }

    fn into_competition(self) -> (competition: Competition) {
        self.competition
    }
}

/// A competition that is funded and whose invoices are settled. It moves on at once.
#[derive(Debug)]
pub struct FundingSettled {
    pub competition_id: Uuid,
    pub settled_at: Timestamp,
    pub competition: Competition,
}

impl FundingSettled {
    /// The state of a competition that is stored in it. Where the milestone's time is not
    /// stored, `now` stands for it.
    pub open spec fn of(competition: Competition, now: Timestamp) -> Self {
        FundingSettled {
            competition_id: competition.id,
            settled_at: match competition.funding_settled_at {
                Some(at) => at,
                None => now,
            },
            competition,
        }
    }

    /// Take up a stored competition.
    pub fn from_competition(competition: Competition) -> (state: Self)
        ensures
            exists|now: Timestamp| is_datetime(now as int) && state == #[trigger] Self::of(
                competition,
                now,
            ),
    {
        let now: Timestamp = now_utc();
        Self::from_competition_at(competition, now)
    }

    /// Take up a stored competition at the time `now`.
    pub fn from_competition_at(competition: Competition, now: Timestamp) -> (state: Self)
        ensures
            state == Self::of(competition, now),
    {
        FundingSettled {
            competition_id: competition.id,
            settled_at: match competition.funding_settled_at {
                Some(at) => at,
                None => now,
            },
            competition,
        }
    }

    /// What `await_attestation` makes of this state at the time `now`.
    pub open spec fn await_attestation_spec(self, now: Timestamp) -> CompetitionStatus {
        let competition = Competition {
            awaiting_attestation_at: Some(now),
            ..self.competition
        };
        CompetitionStatus::AwaitingAttestation(AwaitingAttestation::of(competition))
    }

    /// Wait for the oracle.
    pub fn await_attestation(self) -> (next: CompetitionStatus)
        ensures
            exists|now: Timestamp|
                is_datetime(now as int) && next == #[trigger] self.await_attestation_spec(now),
    {
        let now: Timestamp = now_utc();
        self.await_attestation_at(now)
    }

    /// `await_attestation` at the time `now`.
    pub fn await_attestation_at(self, now: Timestamp) -> (next: CompetitionStatus)
        ensures
            next == self.await_attestation_spec(now),
    {
        let mut competition = self.competition;
        competition.awaiting_attestation_at = Some(now);
        CompetitionStatus::AwaitingAttestation(AwaitingAttestation::from_competition(competition))
    }
}

impl HasCompetitionData for FundingSettled {
    open spec fn data(&self) -> Competition {
        self.competition
    }

    fn competition(&self) -> (competition: &Competition) {
        &self.competition
    }

    fn competition_mut(&mut self) -> (competition: &mut Competition)
        ensures
            *final(self) == (FundingSettled { competition: *final(competition), ..*old(self) }),
    {
        &mut self.competition
    }

    fn into_competition(self) -> (competition: Competition) {
        self.competition
    }
}

} // verus!
