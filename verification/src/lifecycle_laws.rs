//! What holds of every step of a competition's lifecycle.

use crate::clock::Timestamp;
use crate::competition::Competition;
use crate::lifecycle::{contract_built, Coordinator, Decision, Report, Turn, Work};
use crate::publishing::{
    a_settlement_records_its_publication, delta_steps_of, ran, reclaim_steps_of,
    reclaims_complete_last,
};
use crate::settlement::{DeltaChoice, ReclaimChoice};
use crate::states::{CompetitionStatus, StatusKind};
use vstd::prelude::*;

verus! {

/// The status is the one that its stored fields reload as, under its own id.
pub open spec fn reloads(status: CompetitionStatus) -> bool {
    &&& status.which() == StatusKind::stored(status.data())
    &&& status.id() == status.data().id
}

/// Storing what was loaded and loading it again gives the same state of the same competition. It is
/// the very same status, but for when a competition stopped: where that was never recorded, each
/// load tells the time at which it was made.
pub proof fn loading_again_gives_the_same_state(
    competition: Competition,
    status: CompetitionStatus,
    again: CompetitionStatus,
)
    requires
        status.loads(competition),
        again.loads(status.data()),
    ensures
        reloads(status),
        status.data() == competition,
        again.data() == competition,
        again.which() == status.which(),
        again.id() == status.id(),
        !(status is Failed) && !(status is Cancelled) ==> again == status,
{
}

/// The outcome was closed or split, and a later step of that publication failed: the status still
/// asks for the rest of it, while its stored fields reload as the next state.
pub open spec fn half_published(status: CompetitionStatus) -> bool {
    &&& status is OutcomeBroadcasted
    &&& StatusKind::stored(status.data()) is DeltaBroadcasted
    &&& status.id() == status.data().id
}

/// What `work` may have stored in a competition by the time of its report. Work that failed
/// leaves every milestone as it was, but for the publication of an outcome, which records that the
/// outcome was closed or split before it goes on to the shares; work that set a milestone also
/// stored what belongs to it.
pub open spec fn performs(
    work: Work,
    report: Report,
    before: Competition,
    after: Competition,
) -> bool {
    match work {
        Work::CheckEscrow => {
            &&& after == (Competition {
                escrow_funds_confirmed_at: after.escrow_funds_confirmed_at,
                errors: after.errors,
                ..before
            })
            &&& report is Failed ==> after == before
        },
        Work::SubmitEvent => {
            &&& after == (Competition {
                event_announcement: after.event_announcement,
                event_created_at: after.event_created_at,
                errors: after.errors,
                ..before
            })
            &&& report is Failed ==> after == before
        },
        Work::SubmitEntries => {
            &&& after == (Competition {
                entries_submitted_at: after.entries_submitted_at,
                errors: after.errors,
                ..before
            })
            &&& report is Failed ==> after == before
        },
        Work::CreateContract => {
            &&& after == (Competition {
                contract_parameters: after.contract_parameters,
                funding_outpoint: after.funding_outpoint,
                funding_psbt_base64: after.funding_psbt_base64,
                public_nonces: after.public_nonces,
                contracted_at: after.contracted_at,
                errors: after.errors,
                ..before
            })
            &&& report is Failed ==> after.contracted_at == before.contracted_at
            &&& after.contracted_at is Some ==> contract_built(after)
        },
        Work::CheckRegistrations | Work::CountFundingConfirmations | Work::SettleInvoices => {
            after == before
        },
        Work::CompleteKeygen => {
            &&& after == (Competition {
                keymeld_keygen_completed_at: after.keymeld_keygen_completed_at,
                ..before
            })
            &&& report is Failed ==> after == before
            &&& !(report is Failed) ==> after.keymeld_keygen_completed_at is Some
        },
        Work::AggregateNonces => after == (Competition {
            aggregated_nonces: after.aggregated_nonces,
            partial_signatures: after.partial_signatures,
            errors: after.errors,
            ..before
        }),
        Work::SignContract => {
            &&& after == (Competition {
                signed_contract: after.signed_contract,
                signed_at: after.signed_at,
                errors: after.errors,
                ..before
            })
            &&& report is Failed ==> after == before
            &&& after.signed_at is Some ==> after.signed_contract is Some
        },
        Work::BroadcastFunding => {
            &&& after == (Competition {
                funding_transaction: after.funding_transaction,
                funding_broadcasted_at: after.funding_broadcasted_at,
                ..before
            })
            &&& report is Failed ==> after == before
            &&& after.funding_broadcasted_at is Some ==> after.funding_transaction is Some
        },
        Work::CheckFunding => {
            &&& after == (Competition {
                funding_confirmed_at: after.funding_confirmed_at,
                errors: after.errors,
                ..before
            })
            &&& report is Failed ==> after == before
        },
        Work::CheckAttestation => {
            &&& after == (Competition {
                attestation: after.attestation,
                expiry_broadcasted_at: after.expiry_broadcasted_at,
                errors: after.errors,
                ..before
            })
            &&& report is Failed ==> after == before
            &&& after.attestation is None || after.expiry_broadcasted_at is None
        },
        Work::PublishOutcome => {
            &&& after == (Competition {
                outcome_transaction: after.outcome_transaction,
                outcome_broadcasted_at: after.outcome_broadcasted_at,
                errors: after.errors,
                ..before
            })
            &&& report is Failed ==> after.outcome_broadcasted_at == before.outcome_broadcasted_at
            &&& after.outcome_broadcasted_at is Some ==> after.outcome_transaction is Some
        },
        Work::PublishDelta => {
            &&& after == (Competition {
                delta_broadcasted_at: after.delta_broadcasted_at,
                errors: after.errors,
                ..before
            })
            &&& before.delta_broadcasted_at is Some ==> after.delta_broadcasted_at is Some
        },
        Work::PublishReclaims => {
            &&& after == (Competition {
                completed_at: after.completed_at,
                errors: after.errors,
                ..before
            })
            &&& report is Failed ==> after.completed_at == before.completed_at
        },
    }
}

/// A publication that was run over its steps as far as it came, from the first on, did what its work
/// may do; one that failed did not come to its last step.
pub proof fn publications_perform(
    choice: DeltaChoice,
    reclaims: ReclaimChoice,
    delta_history: Seq<Competition>,
    reclaim_history: Seq<Competition>,
    times: Seq<Timestamp>,
    report: Report,
)
    requires
        ran(delta_history, delta_steps_of(choice), times),
        ran(reclaim_history, reclaim_steps_of(reclaims), times),
        report is Failed ==> reclaim_history.len() == 1 || reclaim_history.len()
            <= reclaim_steps_of(reclaims).len(),
    ensures
        performs(Work::PublishDelta, report, delta_history[0], delta_history.last()),
        performs(Work::PublishReclaims, report, reclaim_history[0], reclaim_history.last()),
{
    a_settlement_records_its_publication(choice, delta_history, times);
    reclaims_complete_last(reclaims, reclaim_history, times);
}

/// Whether a state calls for `work`.
pub open spec fn calls_for(kind: StatusKind, work: Work) -> bool {
    match kind {
        StatusKind::AwaitingEscrow => work == Work::CheckEscrow,
        StatusKind::EscrowConfirmed => work == Work::SubmitEvent,
        StatusKind::EventCreated => work == Work::SubmitEntries,
        StatusKind::EntriesSubmitted => work == Work::CreateContract,
        StatusKind::ContractCreated => work == Work::CheckRegistrations || work
            == Work::CompleteKeygen || work == Work::AggregateNonces || work == Work::SignContract,
        StatusKind::AwaitingSignatures => work == Work::AggregateNonces || work
            == Work::SignContract,
        StatusKind::SigningComplete => work == Work::BroadcastFunding,
        StatusKind::FundingBroadcasted => work == Work::CountFundingConfirmations || work
            == Work::SettleInvoices || work == Work::CheckFunding,
        StatusKind::AwaitingAttestation => work == Work::CheckAttestation,
        StatusKind::Attested => work == Work::PublishOutcome,
        StatusKind::OutcomeBroadcasted => work == Work::PublishDelta,
        StatusKind::DeltaBroadcasted => work == Work::PublishReclaims,
        _ => false,
    }
}

/// How far along the lifecycle a state is. Ended competitions are past every other state.
pub open spec fn rank(kind: StatusKind) -> int {
    match kind {
        StatusKind::Created => 0,
        StatusKind::CollectingEntries => 1,
        StatusKind::AwaitingEscrow => 2,
        StatusKind::EscrowConfirmed => 3,
        StatusKind::EventCreated => 4,
        StatusKind::EntriesSubmitted => 5,
        StatusKind::ContractCreated => 6,
        StatusKind::AwaitingSignatures => 7,
        StatusKind::SigningComplete => 8,
        StatusKind::FundingBroadcasted => 9,
        StatusKind::FundingConfirmed => 10,
        StatusKind::FundingSettled => 11,
        StatusKind::AwaitingAttestation => 12,
        StatusKind::Attested => 13,
        StatusKind::ExpiryBroadcasted => 14,
        StatusKind::OutcomeBroadcasted => 15,
        StatusKind::DeltaBroadcasted => 16,
        StatusKind::Completed => 17,
        StatusKind::Failed => 18,
        StatusKind::Cancelled => 18,
    }
}

/// What a step without outside work moves to is what its stored fields reload as, and where it
/// asks for work, the state that asks is unchanged and calls for that work.
pub proof fn opening_reloads(
    coordinator: Coordinator,
    status: CompetitionStatus,
    now: Timestamp,
)
    requires
        reloads(status) || half_published(status),
    ensures
        match coordinator.opening(status, now) {
            Decision::Become(next) => reloads(next),
            Decision::Ask(asking, work) => asking == status && calls_for(status.which(), work),
            Decision::Fail(_, _) => false,
        },
{
}

/// The states before a contract is built. See `following_reloads`.
proof fn preparing_reloads(
    coordinator: Coordinator,
    asked: CompetitionStatus,
    status: CompetitionStatus,
    work: Work,
    report: Report,
    now: Timestamp,
    decision: Decision,
    turn: Turn,
)
    requires
        status is AwaitingEscrow || status is EscrowConfirmed || status is EventCreated
            || status is EntriesSubmitted,
        reloads(asked),
        calls_for(asked.which(), work),
        status.which() == asked.which(),
        status.id() == asked.id(),
        performs(work, report, asked.data(), status.data()),
        coordinator.follows(status, work, report, now, decision),
        turn.enacts(decision, now),
    ensures
        match turn {
            Turn::Done(next) => reloads(next),
            Turn::Do(asking, next) => reloads(asking) && calls_for(asking.which(), next)
                && asking.which() == asked.which(),
        },
{
}

/// The states in which a contract is signed. See `following_reloads`.
proof fn signing_reloads(
    coordinator: Coordinator,
    asked: CompetitionStatus,
    status: CompetitionStatus,
    work: Work,
    report: Report,
    now: Timestamp,
    decision: Decision,
    turn: Turn,
)
    requires
        status is ContractCreated || status is AwaitingSignatures,
        reloads(asked),
        calls_for(asked.which(), work),
        status.which() == asked.which(),
        status.id() == asked.id(),
        performs(work, report, asked.data(), status.data()),
        coordinator.follows(status, work, report, now, decision),
        turn.enacts(decision, now),
    ensures
        match turn {
            Turn::Done(next) => reloads(next),
            Turn::Do(asking, next) => reloads(asking) && calls_for(asking.which(), next)
                && asking.which() == asked.which(),
        },
{
}

/// The states in which a contract is funded. See `following_reloads`.
proof fn funding_reloads(
    coordinator: Coordinator,
    asked: CompetitionStatus,
    status: CompetitionStatus,
    work: Work,
    report: Report,
    now: Timestamp,
    decision: Decision,
    turn: Turn,
)
    requires
        status is SigningComplete || status is FundingBroadcasted,
        reloads(asked),
        calls_for(asked.which(), work),
        status.which() == asked.which(),
        status.id() == asked.id(),
        performs(work, report, asked.data(), status.data()),
        coordinator.follows(status, work, report, now, decision),
        turn.enacts(decision, now),
    ensures
        match turn {
            Turn::Done(next) => reloads(next),
            Turn::Do(asking, next) => reloads(asking) && calls_for(asking.which(), next)
                && asking.which() == asked.which(),
        },
{
}

/// The states in which a funded contract is settled. See `following_reloads`.
proof fn settling_reloads(
    coordinator: Coordinator,
    asked: CompetitionStatus,
    status: CompetitionStatus,
    work: Work,
    report: Report,
    now: Timestamp,
    decision: Decision,
    turn: Turn,
)
    requires
        status is AwaitingAttestation || status is Attested || status is OutcomeBroadcasted
            || status is DeltaBroadcasted,
        reloads(asked) || half_published(asked),
        calls_for(asked.which(), work),
        status.which() == asked.which(),
        status.id() == asked.id(),
        performs(work, report, asked.data(), status.data()),
        coordinator.follows(status, work, report, now, decision),
        turn.enacts(decision, now),
    ensures
        match turn {
            Turn::Done(next) => reloads(next) || (half_published(next) && asked is OutcomeBroadcasted
                && report is Failed),
            Turn::Do(asking, next) => reloads(asking) && calls_for(asking.which(), next)
                && asking.which() == asked.which(),
        },
{
}

/// What a step moves to after its work is what its stored fields reload as, so no step reports a
/// transition that the store does not hold. Where more work is asked for, the state that asks
/// reloads as itself too. The one exception is the publication of an outcome that failed after the
/// outcome was closed or split: that is kept, so the store holds the next state already, while the
/// status goes on asking for what is left of the publication.
pub proof fn following_reloads(
    coordinator: Coordinator,
    asked: CompetitionStatus,
    status: CompetitionStatus,
    work: Work,
    report: Report,
    now: Timestamp,
    decision: Decision,
    turn: Turn,
)
    requires
        reloads(asked) || half_published(asked),
        calls_for(asked.which(), work),
        status.which() == asked.which(),
        status.id() == asked.id(),
        performs(work, report, asked.data(), status.data()),
        coordinator.follows(status, work, report, now, decision),
        turn.enacts(decision, now),
    ensures
        match turn {
            Turn::Done(next) => reloads(next) || (half_published(next) && asked is OutcomeBroadcasted
                && report is Failed),
            Turn::Do(asking, next) => reloads(asking) && calls_for(asking.which(), next)
                && asking.which() == asked.which(),
        },
{
    match status {
        CompetitionStatus::AwaitingEscrow(_)
        | CompetitionStatus::EscrowConfirmed(_)
        | CompetitionStatus::EventCreated(_)
        | CompetitionStatus::EntriesSubmitted(_) => {
            preparing_reloads(coordinator, asked, status, work, report, now, decision, turn);
        },
        CompetitionStatus::ContractCreated(_) | CompetitionStatus::AwaitingSignatures(_) => {
            signing_reloads(coordinator, asked, status, work, report, now, decision, turn);
        },
        CompetitionStatus::SigningComplete(_) | CompetitionStatus::FundingBroadcasted(_) => {
            funding_reloads(coordinator, asked, status, work, report, now, decision, turn);
        },
        _ => {
            settling_reloads(coordinator, asked, status, work, report, now, decision, turn);
        },
    }
}

/// A step never turns into a step of another competition.
pub proof fn steps_keep_the_competition(
    coordinator: Coordinator,
    status: CompetitionStatus,
    work: Work,
    report: Report,
    now: Timestamp,
    decision: Decision,
)
    requires
        status.id() == status.data().id,
        decision == coordinator.opening(status, now) || coordinator.follows(
            status,
            work,
            report,
            now,
            decision,
        ),
    ensures
        decision.status().id() == status.id(),
        decision.status().data().id == status.id(),
        decision.status().data().event_submission == status.data().event_submission,
{
}

/// A competition that ended stays as it is, whatever is reported.
pub proof fn ended_competitions_stay(
    coordinator: Coordinator,
    status: CompetitionStatus,
    work: Work,
    report: Report,
    now: Timestamp,
    decision: Decision,
)
    requires
        status.which().terminal(),
        decision == coordinator.opening(status, now) || coordinator.follows(
            status,
            work,
            report,
            now,
            decision,
        ),
    ensures
        decision == Decision::Become(status),
{
}

/// A step never moves a competition back.
pub proof fn steps_never_go_back(
    coordinator: Coordinator,
    status: CompetitionStatus,
    work: Work,
    report: Report,
    now: Timestamp,
    decision: Decision,
)
    requires
        decision == coordinator.opening(status, now) || coordinator.follows(
            status,
            work,
            report,
            now,
            decision,
        ),
    ensures
        rank(decision.status().which()) >= rank(status.which()),
{
}

/// An error while a funded contract is being settled never ends the competition: it stays in its
/// state, neither failed nor cancelled, and keeps no more than the latest errors.
pub proof fn settlement_errors_are_retried(
    coordinator: Coordinator,
    status: CompetitionStatus,
    work: Work,
    report: Report,
    now: Timestamp,
    decision: Decision,
)
    requires
        status is Attested || status is OutcomeBroadcasted || status is DeltaBroadcasted,
        report is Failed,
        coordinator.follows(status, work, report, now, decision),
    ensures
        decision is Become,
        decision.status().which() == status.which(),
        decision.status().data().failed_at == status.data().failed_at,
        decision.status().data().cancelled_at == status.data().cancelled_at,
        decision.status().data().errors@.len() <= coordinator.kept_settlement_errors,
        status.data().errors@.len() < coordinator.kept_settlement_errors
            ==> decision.status().data().errors@.len() == status.data().errors@.len() + 1,
        status.data().errors@.len() >= coordinator.kept_settlement_errors
            ==> decision.status().data().errors@.len() == coordinator.kept_settlement_errors,
        reloads(status) ==> reloads(decision.status()),
{
}

/// Resuming a competition that was stopped while its contract holds the pot puts it back where
/// settlement had come to: it reloads as it would have, had it never been stopped.
pub proof fn resuming_undoes_the_stop(competition: Competition)
    requires
        competition.stranded(),
    ensures
        ({
            let resumed = Competition { failed_at: None, cancelled_at: None, ..competition };
            &&& !StatusKind::stored(resumed).terminal()
            &&& rank(StatusKind::stored(resumed)) >= rank(StatusKind::FundingConfirmed)
            &&& !resumed.stranded()
        }),
{
}

} // verus!
