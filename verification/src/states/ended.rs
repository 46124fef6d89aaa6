//! How a competition ends.

use crate::clock::{is_datetime, now_utc, Timestamp};
use crate::competition::{Competition, CompetitionError, Uuid};
use crate::states::{HasCompetitionData};
use vstd::prelude::*;

verus! {

/// A competition that ended: its winners are paid, or everyone got their money back.
#[derive(Debug)]
pub struct Completed {
    pub competition_id: Uuid,
    pub completed_at: Timestamp,
    pub competition: Competition,
}

impl Completed {
    /// The state of a competition that is stored in it. Where the milestone's time is not
    /// stored, `now` stands for it.
    pub open spec fn of(competition: Competition, now: Timestamp) -> Self {
        Completed {
            competition_id: competition.id,
            completed_at: match competition.completed_at {
                Some(at) => at,
                None => now,
            },
            competition,
        }
    }

    /// Take up a stored competition.
    pub fn from_competition(competition: Competition) -> (state: Self)
        ensures
            exists|now: Timestamp| is_datetime(now as int) && state == #[trigger] Self::of(
                competition,
                now,
            ),
    {
        let now: Timestamp = now_utc();
        Self::from_competition_at(competition, now)
    }

    /// Take up a stored competition at the time `now`.
    pub fn from_competition_at(competition: Competition, now: Timestamp) -> (state: Self)
        ensures
            state == Self::of(competition, now),
    {
        Completed {
            competition_id: competition.id,
            completed_at: match competition.completed_at {
                Some(at) => at,
                None => now,
            },
            competition,
        }
    }

}

impl HasCompetitionData for Completed {
    open spec fn data(&self) -> Competition {
        self.competition
    }

    fn competition(&self) -> (competition: &Competition) {
        &self.competition
    }

    fn competition_mut(&mut self) -> (competition: &mut Competition)
        ensures
            *final(self) == (Completed { competition: *final(competition), ..*old(self) }),
    {
        &mut self.competition
    }

    fn into_competition(self) -> (competition: Competition) {
        self.competition
    }
}

/// A competition that an error ended.
#[derive(Debug)]
pub struct Failed {
    pub competition_id: Uuid,
    pub failed_at: Timestamp,
    pub error: CompetitionError,
    pub previous_state: String,
    pub competition: Competition,
}

impl Failed {
    /// The state is what `from_competition_at` makes of a stored competition: the last error
    /// stored is the one it failed with, and where it had come to is no longer known.
    pub open spec fn loaded(self, competition: Competition, now: Timestamp) -> bool {
        &&& self.competition_id == competition.id
        &&& self.failed_at == match competition.failed_at {
            Some(at) => at,
            None => now,
        }
        &&& self.previous_state@ == "unknown"@
        &&& self.competition == competition
        &&& if competition.errors@.len() > 0 {
            self.error == competition.errors@.last()
        } else {
            self.error matches CompetitionError::InvalidStateTransition(message) && message@
                == "Unknown error"@
        }
    }

    /// Take up a stored competition.
    pub fn from_competition(competition: Competition) -> (state: Self)
        ensures
            exists|now: Timestamp|
                is_datetime(now as int) && #[trigger] state.loaded(competition, now),
    {
        let now: Timestamp = now_utc();
        Self::from_competition_at(competition, now)
    }

    /// Take up a stored competition at the time `now`.
    pub fn from_competition_at(competition: Competition, now: Timestamp) -> (state: Self)
        ensures
            state.loaded(competition, now),
    {
        let stored: usize = competition.errors.len();
        let error = if stored > 0 {
            competition.errors[stored - 1].duplicate()
        } else {
            CompetitionError::InvalidStateTransition("Unknown error".to_owned())
        };
        Failed {
            competition_id: competition.id,
            failed_at: match competition.failed_at {
                Some(at) => at,
                None => now,
            },
            error,
            previous_state: "unknown".to_owned(),
            competition,
        }
    }
}

/// A competition that was cancelled.
#[derive(Debug)]
pub struct Cancelled {
    pub competition_id: Uuid,
    pub cancelled_at: Timestamp,
    pub reason: String,
    pub previous_state: String,
    pub competition: Competition,
}

impl Cancelled {
    /// The state is what `from_competition_at` makes of a stored competition: why it was
    /// cancelled, and where it had come to, is no longer known.
    pub open spec fn loaded(self, competition: Competition, now: Timestamp) -> bool {
        &&& self.competition_id == competition.id
        &&& self.cancelled_at == match competition.cancelled_at {
            Some(at) => at,
            None => now,
        }
        &&& self.reason@ == "Loaded from database"@
        &&& self.previous_state@ == "unknown"@
        &&& self.competition == competition
    }

    /// Take up a stored competition.
    pub fn from_competition(competition: Competition) -> (state: Self)
        ensures
            exists|now: Timestamp|
                is_datetime(now as int) && #[trigger] state.loaded(competition, now),
    {
        let now: Timestamp = now_utc();
        Self::from_competition_at(competition, now)
    }

    /// Take up a stored competition at the time `now`.
    pub fn from_competition_at(competition: Competition, now: Timestamp) -> (state: Self)
        ensures
            state.loaded(competition, now),
    {
        Cancelled {
            competition_id: competition.id,
            cancelled_at: match competition.cancelled_at {
                Some(at) => at,
                None => now,
            },
            reason: "Loaded from database".to_owned(),
            previous_state: "unknown".to_owned(),
            competition,
        }
    }
}

impl HasCompetitionData for Failed {
    open spec fn data(&self) -> Competition {
        self.competition
    }

    fn competition(&self) -> (competition: &Competition) {
        &self.competition
    }

    fn competition_mut(&mut self) -> (competition: &mut Competition)
        ensures
            *final(self) == (Failed { competition: *final(competition), ..*old(self) }),
    {
        &mut self.competition
    }

    fn into_competition(self) -> (competition: Competition) {
        self.competition
    }
}

impl HasCompetitionData for Cancelled {
    open spec fn data(&self) -> Competition {
        self.competition
    }

    fn competition(&self) -> (competition: &Competition) {
        &self.competition
    }

    fn competition_mut(&mut self) -> (competition: &mut Competition)
        ensures
            *final(self) == (Cancelled { competition: *final(competition), ..*old(self) }),
    {
        &mut self.competition
    }

    fn into_competition(self) -> (competition: Competition) {
        self.competition
    }
}

} // verus!
