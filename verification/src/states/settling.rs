//! From a funded contract to a settled one.

use crate::clock::{is_datetime, now_utc, Timestamp, SECOND};
use crate::competition::{Competition, Uuid};
use crate::contract::Transaction;
use crate::states::{CompetitionStatus, Completed, HasCompetitionData};
use vstd::prelude::*;

verus! {

/// A locktime below this is a block height; from here on it is a UNIX time.
pub const LOCKTIME_THRESHOLD: u32 = 500_000_000;

/// A funded competition that waits for the oracle to attest to its outcome.
#[derive(Debug)]
pub struct AwaitingAttestation {
    pub competition_id: Uuid,
    pub competition: Competition,
}

impl AwaitingAttestation {
    /// The state of a competition that is stored in it.
    pub open spec fn of(competition: Competition) -> Self {
        AwaitingAttestation { competition_id: competition.id, competition }
    }

    /// Take up a stored competition.
    pub fn from_competition(competition: Competition) -> (state: Self)
        ensures
            state == Self::of(competition),
    {
        AwaitingAttestation { competition_id: competition.id, competition }
    }

    /// When the contract expires, where its locktime is a time and not a block height.
    pub open spec fn contract_expiry(self) -> Option<int> {
        match self.competition.signed_contract {
            Some(contract) => match contract.params.event.expiry {
                Some(expiry) => if expiry >= LOCKTIME_THRESHOLD {
                    Some(expiry * SECOND)
                } else {
                    None
                },
                None => None,
            },
            None => None,
        }
    }

    /// The oracle attests only after the observation window closes, so there is nothing to ask
    /// before then. A contract that expires sooner is due at its expiry.
    pub open spec fn ready(self) -> int {
        let closes = self.competition.event_submission.end_observation_date as int;
        match self.contract_expiry() {
            Some(expiry) => if expiry < closes {
                expiry
            } else {
                closes
            },
            None => closes,
        }
    }

    /// When to ask the oracle again, unless an event comes first: once it is ready, and not before
    /// `idle` has passed.
    pub fn next_check(&self, now: Timestamp, idle: i128) -> (at: Timestamp)
        requires
            is_datetime(now as int),
            idle >= 0,
            is_datetime(now + idle),
        ensures
            at == (if now + idle < self.ready() {
                self.ready()
            } else {
                now + idle
            }),
    {
        let mut ready: Timestamp = self.competition.event_submission.end_observation_date;
        if let Some(contract) = &self.competition.signed_contract {
            if let Some(expiry) = contract.params.event.expiry {
                // Below this, a locktime is a block height, not a time.
                if expiry >= LOCKTIME_THRESHOLD {
                    let at: Timestamp = expiry as i128 * SECOND;
                    if at < ready {
                        ready = at;
                    }
                }
            }
        }
        let idle_over: Timestamp = now + idle;
        if idle_over < ready {
            ready
        } else {
            idle_over
        }
    }

    /// The oracle attested to an outcome.
    pub fn attested(self, attestation: Vec<u8>) -> (next: CompetitionStatus)
        ensures
            next == CompetitionStatus::Attested(
                Attested::of(Competition { attestation: Some(attestation), ..self.competition }),
            ),
    {
        let mut competition = self.competition;
        competition.attestation = Some(attestation);
        CompetitionStatus::Attested(Attested::from_competition(competition))
    }

    /// The event expired: by the chain's clock, its expiry has passed without an attestation.
    pub fn is_expired(&self, current_blockchain_time: u64) -> (expired: bool)
        ensures
            expired == match self.competition.event_announcement {
                Some(event) => match event.expiry {
                    Some(expiry) => current_blockchain_time > expiry,
                    None => false,
                },
                None => false,
            },
    {
        if let Some(event_announcement) = &self.competition.event_announcement {
            if let Some(expiry) = event_announcement.expiry {
                return current_blockchain_time > expiry as u64;
            }
        }
        false
    }

    /// What `expired` makes of this state at the time `now`.
    pub open spec fn expired_spec(self, now: Timestamp) -> CompetitionStatus {
        let competition = Competition {
            expiry_broadcasted_at: Some(now),
            ..self.competition
        };
        CompetitionStatus::ExpiryBroadcasted(ExpiryBroadcasted::of(competition, now))
    }

    /// The refund path: the oracle attested to nothing before the contract expired.
    pub fn expired(self) -> (next: CompetitionStatus)
        ensures
            exists|now: Timestamp|
                is_datetime(now as int) && next == #[trigger] self.expired_spec(now),
    {
        let now: Timestamp = now_utc();
        self.expired_at(now)
    }

    /// `expired` at the time `now`.
    pub fn expired_at(self, now: Timestamp) -> (next: CompetitionStatus)
        ensures
            next == self.expired_spec(now),
    {
        let mut competition = self.competition;
        competition.expiry_broadcasted_at = Some(now);
        CompetitionStatus::ExpiryBroadcasted(ExpiryBroadcasted::from_competition_at(competition, now))
    }
}

impl HasCompetitionData for AwaitingAttestation {
    open spec fn data(&self) -> Competition {
        self.competition
    }

    fn competition(&self) -> (competition: &Competition) {
        &self.competition
    }

    fn competition_mut(&mut self) -> (competition: &mut Competition)
        ensures
            *final(self) == (AwaitingAttestation { competition: *final(competition), ..*old(self) }),
    {
        &mut self.competition
    }

    fn into_competition(self) -> (competition: Competition) {
        self.competition
    }
}

/// A competition whose outcome is attested, and whose outcome transaction can be broadcast.
#[derive(Debug)]
pub struct Attested {
    pub competition_id: Uuid,
    pub competition: Competition,
}

impl Attested {
    /// The state of a competition that is stored in it.
    pub open spec fn of(competition: Competition) -> Self {
        Attested { competition_id: competition.id, competition }
    }

    /// Take up a stored competition.
    pub fn from_competition(competition: Competition) -> (state: Self)
        ensures
            state == Self::of(competition),
    {
        Attested { competition_id: competition.id, competition }
    }

    /// What `outcome_broadcasted` makes of this state at the time `now`.
    pub open spec fn outcome_broadcasted_spec(self, outcome_tx: Transaction, now: Timestamp) -> CompetitionStatus {
        let competition = Competition {
            outcome_transaction: Some(outcome_tx),
            outcome_broadcasted_at: Some(now),
            ..self.competition
        };
        CompetitionStatus::OutcomeBroadcasted(OutcomeBroadcasted::of(competition, now))
    }

    /// The outcome transaction was broadcast.
    pub fn outcome_broadcasted(self, outcome_tx: Transaction) -> (next: CompetitionStatus)
        ensures
            exists|now: Timestamp|
                is_datetime(now as int) && next == #[trigger] self.outcome_broadcasted_spec(outcome_tx, now),
    {
        let now: Timestamp = now_utc();
        self.outcome_broadcasted_at(outcome_tx, now)
    }

    /// `outcome_broadcasted` at the time `now`.
    pub fn outcome_broadcasted_at(self, outcome_tx: Transaction, now: Timestamp) -> (next: CompetitionStatus)
        ensures
            next == self.outcome_broadcasted_spec(outcome_tx, now),
    {
        let mut competition = self.competition;
        competition.outcome_transaction = Some(outcome_tx);
        competition.outcome_broadcasted_at = Some(now);
        CompetitionStatus::OutcomeBroadcasted(OutcomeBroadcasted::from_competition_at(competition, now))
    }

    /// What the oracle attested.
    pub fn attestation(&self) -> (attestation: Option<&Vec<u8>>)
        ensures
            match self.competition.attestation {
                Some(stored) => attestation == Some(&stored),
                None => attestation is None,
            },
    {
        self.competition.attestation.as_ref()
    }
}

impl HasCompetitionData for Attested {
    open spec fn data(&self) -> Competition {
        self.competition
    }

    fn competition(&self) -> (competition: &Competition) {
        &self.competition
    }

    fn competition_mut(&mut self) -> (competition: &mut Competition)
        ensures
            *final(self) == (Attested { competition: *final(competition), ..*old(self) }),
    {
        &mut self.competition
    }

    fn into_competition(self) -> (competition: Competition) {
        self.competition
    }
}

/// A competition whose contract expired, and gave every player their money back.
#[derive(Debug)]
pub struct ExpiryBroadcasted {
    pub competition_id: Uuid,
    pub expiry_broadcasted_at: Timestamp,
    pub competition: Competition,
}

impl ExpiryBroadcasted {
    /// The state of a competition that is stored in it. Where the milestone's time is not
    /// stored, `now` stands for it.
    pub open spec fn of(competition: Competition, now: Timestamp) -> Self {
        ExpiryBroadcasted {
            competition_id: competition.id,
            expiry_broadcasted_at: match competition.expiry_broadcasted_at {
                Some(at) => at,
                None => now,
            },
            competition,
        }
    }

    /// Take up a stored competition.
    pub fn from_competition(competition: Competition) -> (state: Self)
        ensures
            exists|now: Timestamp| is_datetime(now as int) && state == #[trigger] Self::of(
                competition,
                now,
            ),
    {
        let now: Timestamp = now_utc();
        Self::from_competition_at(competition, now)
    }

    /// Take up a stored competition at the time `now`.
    pub fn from_competition_at(competition: Competition, now: Timestamp) -> (state: Self)
        ensures
            state == Self::of(competition, now),
    {
        ExpiryBroadcasted {
            competition_id: competition.id,
            expiry_broadcasted_at: match competition.expiry_broadcasted_at {
                Some(at) => at,
                None => now,
            },
            competition,
        }
    }

    /// What `completed` makes of this state at the time `now`.
    pub open spec fn completed_spec(self, now: Timestamp) -> CompetitionStatus {
        let competition = Competition {
            completed_at: Some(now),
            ..self.competition
        };
        CompetitionStatus::Completed(Completed::of(competition, now))
    }

    /// The refunds are processed.
    pub fn completed(self) -> (next: CompetitionStatus)
        ensures
            exists|now: Timestamp|
                is_datetime(now as int) && next == #[trigger] self.completed_spec(now),
    {
        let now: Timestamp = now_utc();
        self.completed_at(now)
    }

    /// `completed` at the time `now`.
    pub fn completed_at(self, now: Timestamp) -> (next: CompetitionStatus)
        ensures
            next == self.completed_spec(now),
    {
        let mut competition = self.competition;
        competition.completed_at = Some(now);
        CompetitionStatus::Completed(Completed::from_competition_at(competition, now))
    }
}

impl HasCompetitionData for ExpiryBroadcasted {
    open spec fn data(&self) -> Competition {
        self.competition
    }

    fn competition(&self) -> (competition: &Competition) {
        &self.competition
    }

    fn competition_mut(&mut self) -> (competition: &mut Competition)
        ensures
            *final(self) == (ExpiryBroadcasted { competition: *final(competition), ..*old(self) }),
    {
        &mut self.competition
    }

    fn into_competition(self) -> (competition: Competition) {
        self.competition
    }
}

/// A competition whose outcome transaction is broadcast. Once its relative timelock is over, the
/// delta transactions follow.
#[derive(Debug)]
pub struct OutcomeBroadcasted {
    pub competition_id: Uuid,
    pub outcome_broadcasted_at: Timestamp,
    pub competition: Competition,
}

impl OutcomeBroadcasted {
    /// The state of a competition that is stored in it. Where the milestone's time is not
    /// stored, `now` stands for it.
    pub open spec fn of(competition: Competition, now: Timestamp) -> Self {
        OutcomeBroadcasted {
            competition_id: competition.id,
            outcome_broadcasted_at: match competition.outcome_broadcasted_at {
                Some(at) => at,
                None => now,
            },
            competition,
        }
    }

    /// Take up a stored competition.
    pub fn from_competition(competition: Competition) -> (state: Self)
        ensures
            exists|now: Timestamp| is_datetime(now as int) && state == #[trigger] Self::of(
                competition,
                now,
            ),
    {
        let now: Timestamp = now_utc();
        Self::from_competition_at(competition, now)
    }

    /// Take up a stored competition at the time `now`.
    pub fn from_competition_at(competition: Competition, now: Timestamp) -> (state: Self)
        ensures
            state == Self::of(competition, now),
    {
        OutcomeBroadcasted {
            competition_id: competition.id,
            outcome_broadcasted_at: match competition.outcome_broadcasted_at {
                Some(at) => at,
                None => now,
            },
            competition,
        }
    }

    /// What `delta_broadcasted` makes of this state at the time `now`.
    pub open spec fn delta_broadcasted_spec(self, now: Timestamp) -> CompetitionStatus {
        let competition = Competition {
            delta_broadcasted_at: Some(now),
            ..self.competition
        };
        CompetitionStatus::DeltaBroadcasted(DeltaBroadcasted::of(competition, now))
    }

    /// The first delta transactions, which close or split the outcome, were broadcast.
    pub fn delta_broadcasted(self) -> (next: CompetitionStatus)
        ensures
            exists|now: Timestamp|
                is_datetime(now as int) && next == #[trigger] self.delta_broadcasted_spec(now),
    {
        let now: Timestamp = now_utc();
        self.delta_broadcasted_at(now)
    }

    /// `delta_broadcasted` at the time `now`.
    pub fn delta_broadcasted_at(self, now: Timestamp) -> (next: CompetitionStatus)
        ensures
            next == self.delta_broadcasted_spec(now),
    {
        let mut competition = self.competition;
        competition.delta_broadcasted_at = Some(now);
        CompetitionStatus::DeltaBroadcasted(DeltaBroadcasted::from_competition_at(competition, now))
    }

    /// The outcome transaction, to look up its confirmations.
    pub fn outcome_transaction(&self) -> (transaction: Option<&Transaction>)
        ensures
            match self.competition.outcome_transaction {
                Some(stored) => transaction == Some(&stored),
                None => transaction is None,
            },
    {
        self.competition.outcome_transaction.as_ref()
    }
}

impl HasCompetitionData for OutcomeBroadcasted {
    open spec fn data(&self) -> Competition {
        self.competition
    }

    fn competition(&self) -> (competition: &Competition) {
        &self.competition
    }

    fn competition_mut(&mut self) -> (competition: &mut Competition)
        ensures
            *final(self) == (OutcomeBroadcasted { competition: *final(competition), ..*old(self) }),
    {
        &mut self.competition
    }

    fn into_competition(self) -> (competition: Competition) {
        self.competition
    }
}

/// A competition whose first delta transactions are broadcast. What is left is to reclaim what
/// nobody may take any more.
#[derive(Debug)]
pub struct DeltaBroadcasted {
    pub competition_id: Uuid,
    pub delta_broadcasted_at: Timestamp,
    pub competition: Competition,
}

impl DeltaBroadcasted {
    /// The state of a competition that is stored in it. Where the milestone's time is not
    /// stored, `now` stands for it.
    pub open spec fn of(competition: Competition, now: Timestamp) -> Self {
        DeltaBroadcasted {
            competition_id: competition.id,
            delta_broadcasted_at: match competition.delta_broadcasted_at {
                Some(at) => at,
                None => now,
            },
            competition,
        }
    }

    /// Take up a stored competition.
    pub fn from_competition(competition: Competition) -> (state: Self)
        ensures
            exists|now: Timestamp| is_datetime(now as int) && state == #[trigger] Self::of(
                competition,
                now,
            ),
    {
        let now: Timestamp = now_utc();
        Self::from_competition_at(competition, now)
    }

    /// Take up a stored competition at the time `now`.
    pub fn from_competition_at(competition: Competition, now: Timestamp) -> (state: Self)
        ensures
            state == Self::of(competition, now),
    {
        DeltaBroadcasted {
            competition_id: competition.id,
            delta_broadcasted_at: match competition.delta_broadcasted_at {
                Some(at) => at,
                None => now,
            },
            competition,
        }
    }

    /// What `completed` makes of this state at the time `now`.
    pub open spec fn completed_spec(self, now: Timestamp) -> CompetitionStatus {
        let competition = Competition {
            completed_at: Some(now),
            ..self.competition
        };
        CompetitionStatus::Completed(Completed::of(competition, now))
    }

    /// Everything that could be reclaimed was.
    pub fn completed(self) -> (next: CompetitionStatus)
        ensures
            exists|now: Timestamp|
                is_datetime(now as int) && next == #[trigger] self.completed_spec(now),
    {
        let now: Timestamp = now_utc();
        self.completed_at(now)
    }

    /// `completed` at the time `now`.
    pub fn completed_at(self, now: Timestamp) -> (next: CompetitionStatus)
        ensures
            next == self.completed_spec(now),
    {
        let mut competition = self.competition;
        competition.completed_at = Some(now);
        CompetitionStatus::Completed(Completed::from_competition_at(competition, now))
    }
}

impl HasCompetitionData for DeltaBroadcasted {
    open spec fn data(&self) -> Competition {
        self.competition
    }

    fn competition(&self) -> (competition: &Competition) {
        &self.competition
    }

    fn competition_mut(&mut self) -> (competition: &mut Competition)
        ensures
            *final(self) == (DeltaBroadcasted { competition: *final(competition), ..*old(self) }),
    {
        &mut self.competition
    }

    fn into_competition(self) -> (competition: Competition) {
        self.competition
    }
}

} // verus!
