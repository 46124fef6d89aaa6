//! How a stored competition is taken through one step: what is decided before the step runs, and
//! what is made of the status that it ends with.

use crate::clock::{is_datetime, Timestamp, HOUR};
use crate::competition::Competition;
use crate::runners::{Step, Wait};
use crate::states::{AwaitingAttestation, CompetitionStatus, StatusKind};
use vstd::prelude::*;

verus! {

/// How many states a sweep takes a competition through in a row.
pub const MAX_CONSECUTIVE_STATES: usize = 10;

/// What is to be done with a stored competition before it is stepped.
#[derive(Debug)]
pub enum Opening {
    /// It has no lifecycle work left.
    Finished,
    /// It failed, and stays visible until this time.
    WaitUntil(Timestamp),
    /// It failed long enough ago: save it, cancelled. It then has no lifecycle work left.
    CancelFailed(Competition),
    /// It expired: save it, cancelled, and release its held invoices.
    CancelExpired(Competition),
    /// Renew the reservation of its funding inputs, then step it.
    Step(Competition),
}

/// What a step ended with.
#[derive(Debug)]
pub struct Closing {
    /// What is to be saved.
    pub competition: Competition,
    /// The state that the step moved to.
    pub moved_to: StatusKind,
    /// The state that the saved fields imply.
    pub stored: StatusKind,
    /// It failed or was cancelled, so its held invoices are to be released.
    pub died: bool,
    /// What its runner does next.
    pub step: Step,
}

/// A competition that was stopped while its contract holds the pot, no longer stopped.
pub open spec fn unstranded(competition: Competition) -> Competition {
    if competition.stranded() {
        Competition { failed_at: None, cancelled_at: None, ..competition }
    } else {
        competition
    }
}

/// When a stored competition is due again, if nothing wakes it before.
pub open spec fn due(competition: Competition, now: int, idle: int) -> int {
    let ready = AwaitingAttestation::of(competition).ready();
    if StatusKind::stored(competition) is AwaitingAttestation && now + idle < ready {
        ready
    } else {
        now + idle
    }
}

/// What a runner does next with a competition that a step left as `competition`.
pub open spec fn next_step(
    before: StatusKind,
    competition: Competition,
    now: int,
    idle: int,
) -> Step {
    if competition.failed_at is Some {
        // Failed competitions stay visible for an hour, then are cancelled.
        Step::Next(Wait::Until((competition.failed_at->0 + HOUR) as i128))
    } else if competition.cancelled_at is Some {
        Step::Finished
    } else if StatusKind::stored(competition) != before && StatusKind::stored(
        competition,
    ).immediate() {
        Step::Next(Wait::Now)
    } else {
        Step::Next(Wait::Until(due(competition, now, idle) as i128))
    }
}

/// What is to be done with a stored competition at the time `now`, before it is stepped.
pub open spec fn opens(competition: Competition, now: Timestamp) -> Opening {
    let taken = unstranded(competition);
    if taken.cancelled_at is Some || taken.completed_at is Some || taken.expiry_broadcasted_at
        is Some {
        Opening::Finished
    } else if taken.failed_at is Some {
        if now < taken.failed_at->0 + HOUR {
            Opening::WaitUntil((taken.failed_at->0 + HOUR) as i128)
        } else {
            Opening::CancelFailed(Competition { cancelled_at: Some(now), ..taken })
        }
    } else if taken.signed_at is None && now >= taken.event_submission.start_observation_date {
        Opening::CancelExpired(Competition { cancelled_at: Some(now), ..taken })
    } else {
        Opening::Step(taken)
    }
}

/// Before a step: what is to be done with a stored competition at the time `now`, and whether it
/// was picked up again after it had been stopped.
pub fn open_advance(competition: Competition, now: Timestamp) -> (opened: (Opening, bool))
    requires
        is_datetime(now as int),
        competition.failed_at matches Some(at) ==> is_datetime(at + HOUR),
    ensures
        opened.0 == opens(competition, now),
        opened.1 == competition.stranded(),
{
    let mut competition = competition;
    let resumed = competition.resume_stranded_settlement();
    if competition.is_cancelled() || competition.is_completed()
        || competition.is_expiry_broadcasted() {
        return (Opening::Finished, resumed);
    }
    if let Some(failed_at) = competition.failed_at {
        let cancel_at: Timestamp = failed_at + HOUR;
        if now < cancel_at {
            return (Opening::WaitUntil(cancel_at), resumed);
        }
        competition.cancelled_at = Some(now);
        return (Opening::CancelFailed(competition), resumed);
    }
    if competition.is_expired(now) {
        competition.cancelled_at = Some(now);
        return (Opening::CancelExpired(competition), resumed);
    }
    (Opening::Step(competition), resumed)
}

/// After a step that began in the state `before`: what is to be saved and what the runner does
/// next. The state that is named and scheduled is the one that the next step will load, which the
/// saved fields imply.
pub fn close_advance(
    before: StatusKind,
    next: CompetitionStatus,
    now: Timestamp,
    idle: u64,
) -> (closing: Closing)
    requires
        is_datetime(now as int),
        is_datetime(now + idle),
        next.data().failed_at matches Some(at) ==> is_datetime(at + HOUR),
    ensures
        closing.competition == next.data(),
        closing.moved_to == next.which(),
        closing.stored == StatusKind::stored(next.data()),
        closing.died == (next.data().failed_at is Some || next.data().cancelled_at is Some),
        closing.step == next_step(before, next.data(), now as int, idle as int),
{
    let moved_to = next.kind();
    let status = CompetitionStatus::load(next.into_competition());
    let stored = status.kind();
    let wait = if stored != before && status.is_immediate_transition() {
        Wait::Now
    } else {
        Wait::Until(status.next_check(now, idle as i128))
    };
    let competition = status.into_competition();
    let died = competition.is_failed() || competition.is_cancelled();
    let step = match competition.failed_at {
        Some(failed_at) => Step::Next(Wait::Until(failed_at + HOUR)),
        None => if died {
            Step::Finished
        } else {
            Step::Next(wait)
        },
    };
    Closing { competition, moved_to, stored, died, step }
}

/// What a sweep does with a stored competition before it is stepped.
#[derive(Debug)]
pub enum Handling {
    /// Nothing.
    Skip,
    /// Save it, cancelled.
    Cancel(Competition),
    /// Renew the reservation of its funding inputs, then step it.
    Step(Competition),
}

/// What a sweep does with a stored competition at the time `now`: one that failed an hour ago is
/// cancelled, so that it no longer comes up; other ended ones are skipped; an expired one is
/// cancelled; the rest are stepped.
pub fn handle_competition(competition: Competition, now: Timestamp) -> (handling: Handling)
    requires
        is_datetime(now as int),
        competition.failed_at matches Some(at) ==> is_datetime(at as int),
    ensures
        ({
            let ended = competition.cancelled_at is Some || competition.failed_at is Some
                || competition.completed_at is Some || competition.expiry_broadcasted_at is Some;
            if ended {
                if competition.failed_at is Some && competition.cancelled_at is None && now
                    - competition.failed_at->0 >= HOUR {
                    handling == Handling::Cancel(
                        Competition { cancelled_at: Some(now), ..competition },
                    )
                } else {
                    handling is Skip
                }
            } else if competition.signed_at is None && now
                >= competition.event_submission.start_observation_date {
                handling == Handling::Cancel(Competition { cancelled_at: Some(now), ..competition })
            } else {
                handling == Handling::Step(competition)
            }
        }),
{
    let mut competition = competition;
    if competition.skip_competition() {
        if competition.cancelled_at.is_none() {
            if let Some(failed_at) = competition.failed_at {
                if now - failed_at >= HOUR {
                    competition.cancelled_at = Some(now);
                    return Handling::Cancel(competition);
                }
            }
        }
        return Handling::Skip;
    }
    if competition.is_expired(now) {
        competition.cancelled_at = Some(now);
        return Handling::Cancel(competition);
    }
    Handling::Step(competition)
}

/// Whether a sweep steps a competition again at once, and how many states it has then taken it
/// through: only after a move to a state whose next step needs nothing from outside, and not
/// without end. The competition is saved either way.
pub fn handle_next(processed: usize, before: StatusKind, next: &CompetitionStatus) -> (again: (
    bool,
    usize,
))
    requires
        processed < MAX_CONSECUTIVE_STATES,
    ensures
        again.1 == processed + if next.which() != before {
            1int
        } else {
            0
        },
        again.0 == (next.which() != before && next.which().immediate() && processed + 1
            < MAX_CONSECUTIVE_STATES),
        again.0 ==> again.1 < MAX_CONSECUTIVE_STATES,
{
    if next.kind() != before {
        let processed: usize = processed + 1;
        (next.is_immediate_transition() && processed < MAX_CONSECUTIVE_STATES, processed)
    } else {
        (false, processed)
    }
}

/// A competition that a step left failed, and whose contract does not hold the pot, is left alone
/// for an hour and cancelled once it is over; then it has no lifecycle work left.
pub proof fn failed_competitions_are_cancelled_after_an_hour(
    before: StatusKind,
    competition: Competition,
    closed_at: int,
    idle: int,
    now: Timestamp,
    later: Timestamp,
)
    requires
        competition.failed_at is Some,
        competition.cancelled_at is None,
        competition.completed_at is None,
        competition.expiry_broadcasted_at is None,
        !competition.holds_pot(),
        is_datetime(competition.failed_at->0 + HOUR),
    ensures
        next_step(before, competition, closed_at, idle) == Step::Next(
            Wait::Until((competition.failed_at->0 + HOUR) as i128),
        ),
        now < competition.failed_at->0 + HOUR ==> opens(competition, now) == Opening::WaitUntil(
            (competition.failed_at->0 + HOUR) as i128,
        ),
        now >= competition.failed_at->0 + HOUR ==> (opens(competition, now)
            matches Opening::CancelFailed(cancelled) && opens(cancelled, later) is Finished),
{
}

/// A competition whose contract holds the pot is stepped, whatever stopped it before.
pub proof fn a_held_pot_is_always_settled(competition: Competition, now: Timestamp)
    requires
        competition.holds_pot(),
        competition.signed_at is Some,
    ensures
        opens(competition, now) matches Opening::Step(taken) && taken.failed_at is None
            && taken.cancelled_at is None,
{
}

} // verus!
