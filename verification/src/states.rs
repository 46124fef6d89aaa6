//! The lifecycle of a competition, one type per state.
//!
//! ```text
//! Created -> CollectingEntries -> AwaitingEscrow -> EscrowConfirmed -> EventCreated
//!     -> EntriesSubmitted -> ContractCreated -> AwaitingSignatures -> SigningComplete
//!     -> FundingBroadcasted -> FundingConfirmed -> FundingSettled -> AwaitingAttestation
//!     -> Attested -> OutcomeBroadcasted -> DeltaBroadcasted -> Completed
//!
//! AwaitingAttestation -> ExpiryBroadcasted -> Completed     (nothing was attested in time)
//! any state -> Failed, Cancelled
//! ```
//!
//! A transition consumes the state and returns the next one, so a step that the lifecycle does not
//! have cannot be written.

mod collecting;
mod ended;
mod funding;
mod preparing;
mod settling;

pub use collecting::{AwaitingEscrow, CollectingEntries, Created};
pub use ended::{Cancelled, Completed, Failed};
pub use funding::{FundingBroadcasted, FundingConfirmed, FundingSettled, SigningComplete};
pub use preparing::{
    AwaitingSignatures, ContractCreated, EntriesSubmitted, EscrowConfirmed, EventCreated,
};
pub use settling::{
    Attested, AwaitingAttestation, DeltaBroadcasted, ExpiryBroadcasted, OutcomeBroadcasted,
    LOCKTIME_THRESHOLD,
};

use crate::clock::{is_datetime, now_utc, Timestamp};
use crate::competition::{Competition, CompetitionError, CompetitionState, Uuid};
use vstd::prelude::*;
use vstd::std_specs::convert::FromSpecImpl;

verus! {

/// A state that holds its competition's data.
pub trait HasCompetitionData: Sized {
    /// The competition's data.
    spec fn data(&self) -> Competition;

    /// The competition's data, to read.
    fn competition(&self) -> (competition: &Competition)
        ensures
            *competition == self.data(),
    ;

    /// The competition's data, to change.
    fn competition_mut(&mut self) -> (competition: &mut Competition)
        ensures
            *competition == old(self).data(),
            final(self).data() == *final(competition),
    ;

    /// The competition's data, given up by the state.
    fn into_competition(self) -> (competition: Competition)
        ensures
            competition == self.data(),
    ;
}

/// Which state a competition is in.
#[derive(Clone, Copy, PartialEq, Eq, Structural, Debug)]
pub enum StatusKind {
    Created,
    CollectingEntries,
    AwaitingEscrow,
    EscrowConfirmed,
    EventCreated,
    EntriesSubmitted,
    ContractCreated,
    AwaitingSignatures,
    SigningComplete,
    FundingBroadcasted,
    FundingConfirmed,
    FundingSettled,
    AwaitingAttestation,
    Attested,
    ExpiryBroadcasted,
    OutcomeBroadcasted,
    DeltaBroadcasted,
    Completed,
    Failed,
    Cancelled,
}

impl StatusKind {
    /// The state's name.
    pub open spec fn name(self) -> Seq<char> {
        match self {
            StatusKind::Created => "created"@,
            StatusKind::CollectingEntries => "collecting_entries"@,
            StatusKind::AwaitingEscrow => "awaiting_escrow"@,
            StatusKind::EscrowConfirmed => "escrow_confirmed"@,
            StatusKind::EventCreated => "event_created"@,
            StatusKind::EntriesSubmitted => "entries_submitted"@,
            StatusKind::ContractCreated => "contract_created"@,
            StatusKind::AwaitingSignatures => "awaiting_signatures"@,
            StatusKind::SigningComplete => "signing_complete"@,
            StatusKind::FundingBroadcasted => "funding_broadcasted"@,
            StatusKind::FundingConfirmed => "funding_confirmed"@,
            StatusKind::FundingSettled => "funding_settled"@,
            StatusKind::AwaitingAttestation => "awaiting_attestation"@,
            StatusKind::Attested => "attested"@,
            StatusKind::ExpiryBroadcasted => "expiry_broadcasted"@,
            StatusKind::OutcomeBroadcasted => "outcome_broadcasted"@,
            StatusKind::DeltaBroadcasted => "delta_broadcasted"@,
            StatusKind::Completed => "completed"@,
            StatusKind::Failed => "failed"@,
            StatusKind::Cancelled => "cancelled"@,
        }
    }

    /// The state's name.
    pub fn as_str(self) -> (name: &'static str)
        ensures
            name@ == self.name(),
    {
        match self {
            StatusKind::Created => "created",
            StatusKind::CollectingEntries => "collecting_entries",
            StatusKind::AwaitingEscrow => "awaiting_escrow",
            StatusKind::EscrowConfirmed => "escrow_confirmed",
            StatusKind::EventCreated => "event_created",
            StatusKind::EntriesSubmitted => "entries_submitted",
            StatusKind::ContractCreated => "contract_created",
            StatusKind::AwaitingSignatures => "awaiting_signatures",
            StatusKind::SigningComplete => "signing_complete",
            StatusKind::FundingBroadcasted => "funding_broadcasted",
            StatusKind::FundingConfirmed => "funding_confirmed",
            StatusKind::FundingSettled => "funding_settled",
            StatusKind::AwaitingAttestation => "awaiting_attestation",
            StatusKind::Attested => "attested",
            StatusKind::ExpiryBroadcasted => "expiry_broadcasted",
            StatusKind::OutcomeBroadcasted => "outcome_broadcasted",
            StatusKind::DeltaBroadcasted => "delta_broadcasted",
            StatusKind::Completed => "completed",
            StatusKind::Failed => "failed",
            StatusKind::Cancelled => "cancelled",
        }
    }

    /// Nothing follows.
    pub open spec fn terminal(self) -> bool {
        self is Completed || self is Failed || self is Cancelled
    }

    /// What comes next can be done at once, without waiting for anything outside.
    pub open spec fn immediate(self) -> bool {
        self is EscrowConfirmed || self is EventCreated || self is EntriesSubmitted
            || self is SigningComplete || self is FundingConfirmed || self is FundingSettled
    }

    /// The state that a competition's stored fields imply. A competition that has entries but is
    /// not full is collecting them.
    pub open spec fn stored(competition: Competition) -> StatusKind {
        match competition.state() {
            CompetitionState::Created => if competition.total_entries > 0 {
                StatusKind::CollectingEntries
            } else {
                StatusKind::Created
            },
            CompetitionState::EntriesCollected => StatusKind::AwaitingEscrow,
            CompetitionState::EscrowFundsConfirmed => StatusKind::EscrowConfirmed,
            CompetitionState::EventCreated => StatusKind::EventCreated,
            CompetitionState::EntriesSubmitted => StatusKind::EntriesSubmitted,
            CompetitionState::ContractCreated => StatusKind::ContractCreated,
            CompetitionState::AwaitingSignatures => StatusKind::AwaitingSignatures,
            CompetitionState::SigningComplete => StatusKind::SigningComplete,
            CompetitionState::FundingBroadcasted => StatusKind::FundingBroadcasted,
            CompetitionState::FundingConfirmed => StatusKind::FundingConfirmed,
            CompetitionState::FundingSettled => StatusKind::FundingSettled,
            CompetitionState::AwaitingAttestation => StatusKind::AwaitingAttestation,
            CompetitionState::Attested => StatusKind::Attested,
            CompetitionState::ExpiryBroadcasted => StatusKind::ExpiryBroadcasted,
            CompetitionState::OutcomeBroadcasted => StatusKind::OutcomeBroadcasted,
            CompetitionState::DeltaBroadcasted => StatusKind::DeltaBroadcasted,
            CompetitionState::Completed => StatusKind::Completed,
            CompetitionState::Failed => StatusKind::Failed,
            CompetitionState::Cancelled => StatusKind::Cancelled,
        }
    }
}

/// A competition in whichever state it is.
#[derive(Debug)]
pub enum CompetitionStatus {
    Created(Created),
    CollectingEntries(CollectingEntries),
    AwaitingEscrow(AwaitingEscrow),
    EscrowConfirmed(EscrowConfirmed),
    EventCreated(EventCreated),
    EntriesSubmitted(EntriesSubmitted),
    ContractCreated(ContractCreated),
    AwaitingSignatures(AwaitingSignatures),
    SigningComplete(SigningComplete),
    FundingBroadcasted(FundingBroadcasted),
    FundingConfirmed(FundingConfirmed),
    FundingSettled(FundingSettled),
    AwaitingAttestation(AwaitingAttestation),
    Attested(Attested),
    ExpiryBroadcasted(ExpiryBroadcasted),
    OutcomeBroadcasted(OutcomeBroadcasted),
    DeltaBroadcasted(DeltaBroadcasted),
    Completed(Completed),
    Failed(Failed),
    Cancelled(Cancelled),
}

impl CompetitionStatus {
    /// Which state it is.
    pub open spec fn which(self) -> StatusKind {
        match self {
            CompetitionStatus::Created(_) => StatusKind::Created,
            CompetitionStatus::CollectingEntries(_) => StatusKind::CollectingEntries,
            CompetitionStatus::AwaitingEscrow(_) => StatusKind::AwaitingEscrow,
            CompetitionStatus::EscrowConfirmed(_) => StatusKind::EscrowConfirmed,
            CompetitionStatus::EventCreated(_) => StatusKind::EventCreated,
            CompetitionStatus::EntriesSubmitted(_) => StatusKind::EntriesSubmitted,
            CompetitionStatus::ContractCreated(_) => StatusKind::ContractCreated,
            CompetitionStatus::AwaitingSignatures(_) => StatusKind::AwaitingSignatures,
            CompetitionStatus::SigningComplete(_) => StatusKind::SigningComplete,
            CompetitionStatus::FundingBroadcasted(_) => StatusKind::FundingBroadcasted,
            CompetitionStatus::FundingConfirmed(_) => StatusKind::FundingConfirmed,
            CompetitionStatus::FundingSettled(_) => StatusKind::FundingSettled,
            CompetitionStatus::AwaitingAttestation(_) => StatusKind::AwaitingAttestation,
            CompetitionStatus::Attested(_) => StatusKind::Attested,
            CompetitionStatus::ExpiryBroadcasted(_) => StatusKind::ExpiryBroadcasted,
            CompetitionStatus::OutcomeBroadcasted(_) => StatusKind::OutcomeBroadcasted,
            CompetitionStatus::DeltaBroadcasted(_) => StatusKind::DeltaBroadcasted,
            CompetitionStatus::Completed(_) => StatusKind::Completed,
            CompetitionStatus::Failed(_) => StatusKind::Failed,
            CompetitionStatus::Cancelled(_) => StatusKind::Cancelled,
        }
    }

    /// The id that the state carries.
    pub open spec fn id(self) -> Uuid {
        match self {
            CompetitionStatus::Created(state) => state.competition_id,
            CompetitionStatus::CollectingEntries(state) => state.competition_id,
            CompetitionStatus::AwaitingEscrow(state) => state.competition_id,
            CompetitionStatus::EscrowConfirmed(state) => state.competition_id,
            CompetitionStatus::EventCreated(state) => state.competition_id,
            CompetitionStatus::EntriesSubmitted(state) => state.competition_id,
            CompetitionStatus::ContractCreated(state) => state.competition_id,
            CompetitionStatus::AwaitingSignatures(state) => state.competition_id,
            CompetitionStatus::SigningComplete(state) => state.competition_id,
            CompetitionStatus::FundingBroadcasted(state) => state.competition_id,
            CompetitionStatus::FundingConfirmed(state) => state.competition_id,
            CompetitionStatus::FundingSettled(state) => state.competition_id,
            CompetitionStatus::AwaitingAttestation(state) => state.competition_id,
            CompetitionStatus::Attested(state) => state.competition_id,
            CompetitionStatus::ExpiryBroadcasted(state) => state.competition_id,
            CompetitionStatus::OutcomeBroadcasted(state) => state.competition_id,
            CompetitionStatus::DeltaBroadcasted(state) => state.competition_id,
            CompetitionStatus::Completed(state) => state.competition_id,
            CompetitionStatus::Failed(state) => state.competition_id,
            CompetitionStatus::Cancelled(state) => state.competition_id,
        }
    }

    /// The competition's data.
    pub open spec fn data(self) -> Competition {
        match self {
            CompetitionStatus::Created(state) => state.competition,
            CompetitionStatus::CollectingEntries(state) => state.competition,
            CompetitionStatus::AwaitingEscrow(state) => state.competition,
            CompetitionStatus::EscrowConfirmed(state) => state.competition,
            CompetitionStatus::EventCreated(state) => state.competition,
            CompetitionStatus::EntriesSubmitted(state) => state.competition,
            CompetitionStatus::ContractCreated(state) => state.competition,
            CompetitionStatus::AwaitingSignatures(state) => state.competition,
            CompetitionStatus::SigningComplete(state) => state.competition,
            CompetitionStatus::FundingBroadcasted(state) => state.competition,
            CompetitionStatus::FundingConfirmed(state) => state.competition,
            CompetitionStatus::FundingSettled(state) => state.competition,
            CompetitionStatus::AwaitingAttestation(state) => state.competition,
            CompetitionStatus::Attested(state) => state.competition,
            CompetitionStatus::ExpiryBroadcasted(state) => state.competition,
            CompetitionStatus::OutcomeBroadcasted(state) => state.competition,
            CompetitionStatus::DeltaBroadcasted(state) => state.competition,
            CompetitionStatus::Completed(state) => state.competition,
            CompetitionStatus::Failed(state) => state.competition,
            CompetitionStatus::Cancelled(state) => state.competition,
        }
    }

    /// The status is what a stored competition loads as: the state that its fields imply, which
    /// carries its id, its data, and the time at which it reached that state.
    pub open spec fn loads(self, competition: Competition) -> bool {
        &&& self.which() == StatusKind::stored(competition)
        &&& self.id() == competition.id
        &&& self.data() == competition
        &&& match self {
            CompetitionStatus::Created(state) => state == Created::of(competition),
            CompetitionStatus::CollectingEntries(state) => state == CollectingEntries::of(competition),
            CompetitionStatus::AwaitingEscrow(state) => state == AwaitingEscrow::of(competition),
            CompetitionStatus::EscrowConfirmed(state) => state == EscrowConfirmed::of(competition, 0),
            CompetitionStatus::EventCreated(state) => state == EventCreated::of(competition, 0),
            CompetitionStatus::EntriesSubmitted(state) => state == EntriesSubmitted::of(competition, 0),
            CompetitionStatus::ContractCreated(state) => state == ContractCreated::of(competition, 0),
            CompetitionStatus::AwaitingSignatures(state) => state == AwaitingSignatures::of(competition),
            CompetitionStatus::SigningComplete(state) => state == SigningComplete::of(competition, 0),
            CompetitionStatus::FundingBroadcasted(state) => state == FundingBroadcasted::of(competition, 0),
            CompetitionStatus::FundingConfirmed(state) => state == FundingConfirmed::of(competition, 0),
            CompetitionStatus::FundingSettled(state) => state == FundingSettled::of(competition, 0),
            CompetitionStatus::AwaitingAttestation(state) => state == AwaitingAttestation::of(competition),
            CompetitionStatus::Attested(state) => state == Attested::of(competition),
            CompetitionStatus::ExpiryBroadcasted(state) => state == ExpiryBroadcasted::of(competition, 0),
            CompetitionStatus::OutcomeBroadcasted(state) => state == OutcomeBroadcasted::of(competition, 0),
            CompetitionStatus::DeltaBroadcasted(state) => state == DeltaBroadcasted::of(competition, 0),
            CompetitionStatus::Completed(state) => state == Completed::of(competition, 0),
            CompetitionStatus::Failed(state) => state.loaded(competition, 0),
            CompetitionStatus::Cancelled(state) => state.loaded(competition, 0),
        }
    }

    /// Which state it is.
    pub fn kind(&self) -> (kind: StatusKind)
        ensures
            kind == self.which(),
    {
        match self {
            CompetitionStatus::Created(_) => StatusKind::Created,
            CompetitionStatus::CollectingEntries(_) => StatusKind::CollectingEntries,
            CompetitionStatus::AwaitingEscrow(_) => StatusKind::AwaitingEscrow,
            CompetitionStatus::EscrowConfirmed(_) => StatusKind::EscrowConfirmed,
            CompetitionStatus::EventCreated(_) => StatusKind::EventCreated,
            CompetitionStatus::EntriesSubmitted(_) => StatusKind::EntriesSubmitted,
            CompetitionStatus::ContractCreated(_) => StatusKind::ContractCreated,
            CompetitionStatus::AwaitingSignatures(_) => StatusKind::AwaitingSignatures,
            CompetitionStatus::SigningComplete(_) => StatusKind::SigningComplete,
            CompetitionStatus::FundingBroadcasted(_) => StatusKind::FundingBroadcasted,
            CompetitionStatus::FundingConfirmed(_) => StatusKind::FundingConfirmed,
            CompetitionStatus::FundingSettled(_) => StatusKind::FundingSettled,
            CompetitionStatus::AwaitingAttestation(_) => StatusKind::AwaitingAttestation,
            CompetitionStatus::Attested(_) => StatusKind::Attested,
            CompetitionStatus::ExpiryBroadcasted(_) => StatusKind::ExpiryBroadcasted,
            CompetitionStatus::OutcomeBroadcasted(_) => StatusKind::OutcomeBroadcasted,
            CompetitionStatus::DeltaBroadcasted(_) => StatusKind::DeltaBroadcasted,
            CompetitionStatus::Completed(_) => StatusKind::Completed,
            CompetitionStatus::Failed(_) => StatusKind::Failed,
            CompetitionStatus::Cancelled(_) => StatusKind::Cancelled,
        }
    }

    /// The competition's id.
    pub fn competition_id(&self) -> (id: Uuid)
        ensures
            id == self.id(),
    {
        match self {
            CompetitionStatus::Created(state) => state.competition_id,
            CompetitionStatus::CollectingEntries(state) => state.competition_id,
            CompetitionStatus::AwaitingEscrow(state) => state.competition_id,
            CompetitionStatus::EscrowConfirmed(state) => state.competition_id,
            CompetitionStatus::EventCreated(state) => state.competition_id,
            CompetitionStatus::EntriesSubmitted(state) => state.competition_id,
            CompetitionStatus::ContractCreated(state) => state.competition_id,
            CompetitionStatus::AwaitingSignatures(state) => state.competition_id,
            CompetitionStatus::SigningComplete(state) => state.competition_id,
            CompetitionStatus::FundingBroadcasted(state) => state.competition_id,
            CompetitionStatus::FundingConfirmed(state) => state.competition_id,
            CompetitionStatus::FundingSettled(state) => state.competition_id,
            CompetitionStatus::AwaitingAttestation(state) => state.competition_id,
            CompetitionStatus::Attested(state) => state.competition_id,
            CompetitionStatus::ExpiryBroadcasted(state) => state.competition_id,
            CompetitionStatus::OutcomeBroadcasted(state) => state.competition_id,
            CompetitionStatus::DeltaBroadcasted(state) => state.competition_id,
            CompetitionStatus::Completed(state) => state.competition_id,
            CompetitionStatus::Failed(state) => state.competition_id,
            CompetitionStatus::Cancelled(state) => state.competition_id,
        }
    }

    /// The state's name.
    pub fn state_name(&self) -> (name: &'static str)
        ensures
            name@ == self.which().name(),
    {
        self.kind().as_str()
    }

    /// Nothing follows this state.
    pub fn is_terminal(&self) -> (terminal: bool)
        ensures
            terminal == self.which().terminal(),
    {
        matches!(
            self.kind(),
            StatusKind::Completed | StatusKind::Failed | StatusKind::Cancelled
        )
    }

    /// What follows can be done at once, without waiting for anything outside.
    pub fn is_immediate_transition(&self) -> (immediate: bool)
        ensures
            immediate == self.which().immediate(),
    {
        matches!(
            self.kind(),
            StatusKind::EscrowConfirmed
                | StatusKind::EventCreated
                | StatusKind::EntriesSubmitted
                | StatusKind::SigningComplete
                | StatusKind::FundingConfirmed
                | StatusKind::FundingSettled
        )
    }

    /// When `next_check` says to step the competition again.
    pub open spec fn check_at(self, now: int, idle: int) -> int {
        match self {
            CompetitionStatus::AwaitingAttestation(state) => if now + idle < state.ready() {
                state.ready()
            } else {
                now + idle
            },
            _ => now + idle,
        }
    }

    /// When to step the competition again, unless an event wakes it first. A state that knows
    /// better says so; the rest wait for `idle`.
    pub fn next_check(&self, now: Timestamp, idle: i128) -> (at: Timestamp)
        requires
            is_datetime(now as int),
            idle >= 0,
            is_datetime(now + idle),
        ensures
            at == self.check_at(now as int, idle as int),
    {
        match self {
            CompetitionStatus::AwaitingAttestation(state) => state.next_check(now, idle),
            _ => now + idle,
        }
    }

    /// The status is `from`, failed with `error` at the time `now`.
    pub open spec fn failed_from(
        self,
        from: CompetitionStatus,
        error: CompetitionError,
        now: Timestamp,
    ) -> bool {
        &&& self matches CompetitionStatus::Failed(failed)
        &&& failed.competition_id == from.id()
        &&& failed.failed_at == now
        &&& failed.error == error
        &&& failed.previous_state@ == from.which().name()
        &&& failed.competition == (Competition { failed_at: Some(now), ..from.data() })
    }

    /// The status is `from`, cancelled for `reason` at the time `now`.
    pub open spec fn cancelled_from(
        self,
        from: CompetitionStatus,
        reason: String,
        now: Timestamp,
    ) -> bool {
        &&& self matches CompetitionStatus::Cancelled(cancelled)
        &&& cancelled.competition_id == from.id()
        &&& cancelled.cancelled_at == now
        &&& cancelled.reason == reason
        &&& cancelled.previous_state@ == from.which().name()
        &&& cancelled.competition == (Competition { cancelled_at: Some(now), ..from.data() })
    }

    /// The competition fails, from any state.
    pub fn fail(self, error: CompetitionError) -> (failed: CompetitionStatus)
        ensures
            exists|now: Timestamp|
                is_datetime(now as int) && #[trigger] failed.failed_from(self, error, now),
    {
        let now: Timestamp = now_utc();
        self.fail_at(error, now)
    }

    /// The competition fails, from any state, at the time `now`.
    pub fn fail_at(self, error: CompetitionError, now: Timestamp) -> (failed: CompetitionStatus)
        ensures
            failed.failed_from(self, error, now),
    {
        let competition_id: Uuid = self.competition_id();
        let previous_state = self.state_name().to_owned();
        let mut competition = self.into_competition();
        competition.failed_at = Some(now);
        CompetitionStatus::Failed(
            Failed { competition_id, failed_at: now, error, previous_state, competition },
        )
    }

    /// The competition is cancelled, from any state.
    pub fn cancel(self, reason: String) -> (cancelled: CompetitionStatus)
        ensures
            exists|now: Timestamp|
                is_datetime(now as int) && #[trigger] cancelled.cancelled_from(self, reason, now),
    {
        let now: Timestamp = now_utc();
        self.cancel_at(reason, now)
    }

    /// The competition is cancelled, from any state, at the time `now`.
    pub fn cancel_at(self, reason: String, now: Timestamp) -> (cancelled: CompetitionStatus)
        ensures
            cancelled.cancelled_from(self, reason, now),
    {
        let competition_id: Uuid = self.competition_id();
        let previous_state = self.state_name().to_owned();
        let mut competition = self.into_competition();
        competition.cancelled_at = Some(now);
        CompetitionStatus::Cancelled(
            Cancelled { competition_id, cancelled_at: now, reason, previous_state, competition },
        )
    }

    /// The competition's data, from any state.
    pub fn into_competition(self) -> (competition: Competition)
        ensures
            competition == self.data(),
    {
        match self {
            CompetitionStatus::Created(state) => state.into_competition(),
            CompetitionStatus::CollectingEntries(state) => state.into_competition(),
            CompetitionStatus::AwaitingEscrow(state) => state.into_competition(),
            CompetitionStatus::EscrowConfirmed(state) => state.into_competition(),
            CompetitionStatus::EventCreated(state) => state.into_competition(),
            CompetitionStatus::EntriesSubmitted(state) => state.into_competition(),
            CompetitionStatus::ContractCreated(state) => state.into_competition(),
            CompetitionStatus::AwaitingSignatures(state) => state.into_competition(),
            CompetitionStatus::SigningComplete(state) => state.into_competition(),
            CompetitionStatus::FundingBroadcasted(state) => state.into_competition(),
            CompetitionStatus::FundingConfirmed(state) => state.into_competition(),
            CompetitionStatus::FundingSettled(state) => state.into_competition(),
            CompetitionStatus::AwaitingAttestation(state) => state.into_competition(),
            CompetitionStatus::Attested(state) => state.into_competition(),
            CompetitionStatus::ExpiryBroadcasted(state) => state.into_competition(),
            CompetitionStatus::OutcomeBroadcasted(state) => state.into_competition(),
            CompetitionStatus::DeltaBroadcasted(state) => state.into_competition(),
            CompetitionStatus::Completed(state) => state.into_competition(),
            CompetitionStatus::Failed(state) => state.into_competition(),
            CompetitionStatus::Cancelled(state) => state.into_competition(),
        }
    }

    /// The competition's data, to read, from any state.
    pub fn competition(&self) -> (competition: &Competition)
        ensures
            *competition == self.data(),
    {
        match self {
            CompetitionStatus::Created(state) => &state.competition,
            CompetitionStatus::CollectingEntries(state) => &state.competition,
            CompetitionStatus::AwaitingEscrow(state) => &state.competition,
            CompetitionStatus::EscrowConfirmed(state) => &state.competition,
            CompetitionStatus::EventCreated(state) => &state.competition,
            CompetitionStatus::EntriesSubmitted(state) => &state.competition,
            CompetitionStatus::ContractCreated(state) => &state.competition,
            CompetitionStatus::AwaitingSignatures(state) => &state.competition,
            CompetitionStatus::SigningComplete(state) => &state.competition,
            CompetitionStatus::FundingBroadcasted(state) => &state.competition,
            CompetitionStatus::FundingConfirmed(state) => &state.competition,
            CompetitionStatus::FundingSettled(state) => &state.competition,
            CompetitionStatus::AwaitingAttestation(state) => &state.competition,
            CompetitionStatus::Attested(state) => &state.competition,
            CompetitionStatus::ExpiryBroadcasted(state) => &state.competition,
            CompetitionStatus::OutcomeBroadcasted(state) => &state.competition,
            CompetitionStatus::DeltaBroadcasted(state) => &state.competition,
            CompetitionStatus::Completed(state) => &state.competition,
            CompetitionStatus::Failed(state) => &state.competition,
            CompetitionStatus::Cancelled(state) => &state.competition,
        }
    }

    /// Load a stored competition in the state that its fields imply.
    pub fn load(competition: Competition) -> (status: CompetitionStatus)
        ensures
            status.loads(competition),
    {
        match competition.get_state() {
            CompetitionState::Created => if competition.total_entries > 0 {
                CompetitionStatus::CollectingEntries(
                    CollectingEntries::from_competition(competition),
                )
            } else {
                CompetitionStatus::Created(Created::from_competition(competition))
            },
            CompetitionState::EntriesCollected => CompetitionStatus::AwaitingEscrow(
                AwaitingEscrow::from_competition(competition),
            ),
            CompetitionState::EscrowFundsConfirmed => CompetitionStatus::EscrowConfirmed(
                EscrowConfirmed::from_competition(competition),
            ),
            CompetitionState::EventCreated => CompetitionStatus::EventCreated(
                EventCreated::from_competition(competition),
            ),
            CompetitionState::EntriesSubmitted => CompetitionStatus::EntriesSubmitted(
                EntriesSubmitted::from_competition(competition),
            ),
            CompetitionState::ContractCreated => CompetitionStatus::ContractCreated(
                ContractCreated::from_competition(competition),
            ),
            CompetitionState::AwaitingSignatures => CompetitionStatus::AwaitingSignatures(
                AwaitingSignatures::from_competition(competition),
            ),
            CompetitionState::SigningComplete => CompetitionStatus::SigningComplete(
                SigningComplete::from_competition(competition),
            ),
            CompetitionState::FundingBroadcasted => CompetitionStatus::FundingBroadcasted(
                FundingBroadcasted::from_competition(competition),
            ),
            CompetitionState::FundingConfirmed => CompetitionStatus::FundingConfirmed(
                FundingConfirmed::from_competition(competition),
            ),
            CompetitionState::FundingSettled => CompetitionStatus::FundingSettled(
                FundingSettled::from_competition(competition),
            ),
            CompetitionState::AwaitingAttestation => CompetitionStatus::AwaitingAttestation(
                AwaitingAttestation::from_competition(competition),
            ),
            CompetitionState::Attested => CompetitionStatus::Attested(
                Attested::from_competition(competition),
            ),
            CompetitionState::ExpiryBroadcasted => CompetitionStatus::ExpiryBroadcasted(
                ExpiryBroadcasted::from_competition(competition),
            ),
            CompetitionState::OutcomeBroadcasted => CompetitionStatus::OutcomeBroadcasted(
                OutcomeBroadcasted::from_competition(competition),
            ),
            CompetitionState::DeltaBroadcasted => CompetitionStatus::DeltaBroadcasted(
                DeltaBroadcasted::from_competition(competition),
            ),
            CompetitionState::Completed => CompetitionStatus::Completed(
                Completed::from_competition(competition),
            ),
            CompetitionState::Failed => CompetitionStatus::Failed(
                Failed::from_competition(competition),
            ),
            CompetitionState::Cancelled => CompetitionStatus::Cancelled(
                Cancelled::from_competition(competition),
            ),
        }
    }
}

impl From<Competition> for CompetitionStatus {
    fn from(competition: Competition) -> (status: Self)
        ensures
            status.loads(competition),
    {
        CompetitionStatus::load(competition)
    }
}

impl FromSpecImpl<Competition> for CompetitionStatus {
    /// A competition that failed or was cancelled with no record of when loads with the present
    /// time, so it loads as one of several statuses: `from` states which.
    open spec fn obeys_from_spec() -> bool {
        false
    }

    open spec fn from_spec(competition: Competition) -> Self {
        choose|status: Self| status.loads(competition)
    }
}

} // verus!
