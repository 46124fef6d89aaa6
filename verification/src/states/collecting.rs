//! Taking entries: from a new competition to one whose places are all taken and paid for.

use crate::clock::{is_datetime, now_utc, Timestamp};
use crate::competition::{Competition, CreateEvent, Uuid};
use crate::states::{CompetitionStatus, EscrowConfirmed, HasCompetitionData};
use vstd::prelude::*;

verus! {

/// A competition that has no entry yet.
#[derive(Debug)]
pub struct Created {
    pub competition_id: Uuid,
    pub created_at: Timestamp,
    pub competition: Competition,
}

impl Created {
    /// The state of a competition that is stored in it.
    pub open spec fn of(competition: Competition) -> Self {
        Created {
            competition_id: competition.id,
            created_at: competition.created_at,
            competition,
        }
    }

    /// Take up a stored competition.
    pub fn from_competition(competition: Competition) -> (state: Self)
        ensures
            state == Self::of(competition),
    {
        Created {
            competition_id: competition.id,
            created_at: competition.created_at,
            competition,
        }
    }

    /// A new competition.
    pub fn new(create_event: CreateEvent) -> (state: Self)
        ensures
            state.competition_id == create_event.id,
            state.competition.event_submission == create_event,
            state.created_at == state.competition.created_at,
            is_datetime(state.created_at as int),
            state == Self::of(state.competition),
            state.competition.total_entries == 0,
            create_event.total_allowed_entries > 0 ==> state.competition.state() is Created,
    {
        Self::from_competition(Competition::new(create_event, now_utc()))
    }

    /// Its first entry was added, which the store has counted already.
    pub fn first_entry_added(self) -> (next: CompetitionStatus)
        ensures
            next == CompetitionStatus::CollectingEntries(CollectingEntries::of(self.competition)),
    {
        CompetitionStatus::CollectingEntries(CollectingEntries::from_competition(self.competition))
    }

    /// The observation window opened before the competition was full, as of `now`.
    pub fn is_expired_at(&self, now: Timestamp) -> (expired: bool)
        ensures
            expired == (now >= self.competition.event_submission.start_observation_date),
    {
        now >= self.competition.event_submission.start_observation_date
    }

    /// The observation window opened before the competition was full.
    pub fn is_expired(&self) -> (expired: bool)
        ensures
            exists|now: Timestamp|
                #![trigger is_datetime(now as int)]
                is_datetime(now as int) && expired == (now
                    >= self.competition.event_submission.start_observation_date),
    {
        let now: Timestamp = now_utc();
        self.is_expired_at(now)
    }
}

impl HasCompetitionData for Created {
    open spec fn data(&self) -> Competition {
        self.competition
    }

    fn competition(&self) -> (competition: &Competition) {
        &self.competition
    }

    fn competition_mut(&mut self) -> (competition: &mut Competition)
        ensures
            *final(self) == (Created { competition: *final(competition), ..*old(self) }),
    {
        &mut self.competition
    }

    fn into_competition(self) -> (competition: Competition) {
        self.competition
    }
}

/// A competition that has entries, and waits until every place is taken and paid for.
#[derive(Debug)]
pub struct CollectingEntries {
    pub competition_id: Uuid,
    pub competition: Competition,
}

impl CollectingEntries {
    /// The state of a competition that is stored in it.
    pub open spec fn of(competition: Competition) -> Self {
        CollectingEntries { competition_id: competition.id, competition }
    }

    /// Take up a stored competition.
    pub fn from_competition(competition: Competition) -> (state: Self)
        ensures
            state == Self::of(competition),
    {
        CollectingEntries { competition_id: competition.id, competition }
    }

    /// Every place is taken and paid for.
    pub fn has_all_entries(&self) -> (all: bool)
        ensures
            all == (self.competition.full() && self.competition.all_paid()),
    {
        self.competition.has_full_entries() && self.competition.has_all_entries_paid()
    }

    /// How many entries there are.
    pub fn entry_count(&self) -> (count: u64)
        ensures
            count == self.competition.total_entries,
    {
        self.competition.total_entries
    }

    /// How many entries there may be.
    pub fn total_allowed(&self) -> (allowed: usize)
        ensures
            allowed == self.competition.event_submission.total_allowed_entries,
    {
        self.competition.event_submission.total_allowed_entries
    }

    /// Move on once every place is taken and paid for; until then, the state is handed back.
    pub fn all_entries_collected(self) -> (next: Result<CompetitionStatus, CompetitionStatus>)
        ensures
            self.competition.full() && self.competition.all_paid() ==> next == Ok::<
                CompetitionStatus,
                CompetitionStatus,
            >(CompetitionStatus::AwaitingEscrow(AwaitingEscrow::of(self.competition))),
            !(self.competition.full() && self.competition.all_paid()) ==> next == Err::<
                CompetitionStatus,
                CompetitionStatus,
            >(CompetitionStatus::CollectingEntries(self)),
    {
        if !self.has_all_entries() {
            return Err(CompetitionStatus::CollectingEntries(self));
        }
        Ok(CompetitionStatus::AwaitingEscrow(AwaitingEscrow::from_competition(self.competition)))
    }

    /// What `into_escrow_confirmed` makes of this state at the time `now`.
    pub open spec fn into_escrow_confirmed_spec(self, now: Timestamp) -> CompetitionStatus {
        let competition = Competition {
            escrow_funds_confirmed_at: Some(now),
            ..self.competition
        };
        CompetitionStatus::EscrowConfirmed(EscrowConfirmed::of(competition, now))
    }

    /// Nothing is held in escrow, so there is nothing to confirm: the oracle event comes next.
    pub fn into_escrow_confirmed(self) -> (next: CompetitionStatus)
        ensures
            exists|now: Timestamp|
                is_datetime(now as int) && next == #[trigger] self.into_escrow_confirmed_spec(now),
    {
        let now: Timestamp = now_utc();
        self.into_escrow_confirmed_at(now)
    }

    /// `into_escrow_confirmed` at the time `now`.
    pub fn into_escrow_confirmed_at(self, now: Timestamp) -> (next: CompetitionStatus)
        ensures
            next == self.into_escrow_confirmed_spec(now),
    {
        let mut competition = self.competition;
        competition.escrow_funds_confirmed_at = Some(now);
        CompetitionStatus::EscrowConfirmed(EscrowConfirmed::from_competition_at(competition, now))
    }

    /// The observation window opened before the competition was full, as of `now`.
    pub fn is_expired_at(&self, now: Timestamp) -> (expired: bool)
        ensures
            expired == (now >= self.competition.event_submission.start_observation_date),
    {
        now >= self.competition.event_submission.start_observation_date
    }

    /// The observation window opened before the competition was full.
    pub fn is_expired(&self) -> (expired: bool)
        ensures
            exists|now: Timestamp|
                #![trigger is_datetime(now as int)]
                is_datetime(now as int) && expired == (now
                    >= self.competition.event_submission.start_observation_date),
    {
        let now: Timestamp = now_utc();
        self.is_expired_at(now)
    }
}

impl HasCompetitionData for CollectingEntries {
    open spec fn data(&self) -> Competition {
        self.competition
    }

    fn competition(&self) -> (competition: &Competition) {
        &self.competition
    }

    fn competition_mut(&mut self) -> (competition: &mut Competition)
        ensures
            *final(self) == (CollectingEntries { competition: *final(competition), ..*old(self) }),
    {
        &mut self.competition
    }

    fn into_competition(self) -> (competition: Competition) {
        self.competition
    }
}

/// A full competition, all of it paid for, that waits until its tickets' escrow transactions
/// have enough confirmations.
#[derive(Debug)]
pub struct AwaitingEscrow {
    pub competition_id: Uuid,
    pub competition: Competition,
}

impl AwaitingEscrow {
    /// The state of a competition that is stored in it.
    pub open spec fn of(competition: Competition) -> Self {
        AwaitingEscrow { competition_id: competition.id, competition }
    }

    /// Take up a stored competition.
    pub fn from_competition(competition: Competition) -> (state: Self)
        ensures
            state == Self::of(competition),
    {
        AwaitingEscrow { competition_id: competition.id, competition }
    }

    /// What `escrow_confirmed` makes of this state at the time `now`.
    pub open spec fn escrow_confirmed_spec(self, now: Timestamp) -> CompetitionStatus {
        let competition = Competition {
            escrow_funds_confirmed_at: Some(now),
            ..self.competition
        };
        CompetitionStatus::EscrowConfirmed(EscrowConfirmed::of(competition, now))
    }

    /// Every escrow transaction has enough confirmations.
    pub fn escrow_confirmed(self) -> (next: CompetitionStatus)
        ensures
            exists|now: Timestamp|
                is_datetime(now as int) && next == #[trigger] self.escrow_confirmed_spec(now),
    {
        let now: Timestamp = now_utc();
        self.escrow_confirmed_at(now)
    }

    /// `escrow_confirmed` at the time `now`.
    pub fn escrow_confirmed_at(self, now: Timestamp) -> (next: CompetitionStatus)
        ensures
            next == self.escrow_confirmed_spec(now),
    {
        let mut competition = self.competition;
        competition.escrow_funds_confirmed_at = Some(now);
        CompetitionStatus::EscrowConfirmed(EscrowConfirmed::from_competition_at(competition, now))
    }

    /// The escrows have not confirmed yet.
    pub fn is_waiting(&self) -> (waiting: bool)
        ensures
            waiting == (self.competition.escrow_funds_confirmed_at is None),
    {
        self.competition.escrow_funds_confirmed_at.is_none()
    }
}

impl HasCompetitionData for AwaitingEscrow {
    open spec fn data(&self) -> Competition {
        self.competition
    }

    fn competition(&self) -> (competition: &Competition) {
        &self.competition
    }

    fn competition_mut(&mut self) -> (competition: &mut Competition)
        ensures
            *final(self) == (AwaitingEscrow { competition: *final(competition), ..*old(self) }),
    {
        &mut self.competition
    }

    fn into_competition(self) -> (competition: Competition) {
        self.competition
    }
}

} // verus!
