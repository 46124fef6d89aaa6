//! What holds of every step of a competition: when it moves on, what it records, what it asks for,
//! which errors end it, and what is published to settle it.

use crate::clock::Timestamp;
use crate::competition::{Competition, CompetitionError};
use crate::contract::Transaction;
use crate::lifecycle::{Coordinator, Decision, Report, Turn, Work};
use crate::publishing::{
    broadcasts, delta_steps_of, published, reclaim_steps_of, records, settles, share_closes,
    share_reclaims, SettlementStepView,
};
use crate::settlement::{DeltaChoice, ReclaimChoice, Winner};
use crate::states::{
    Attested, AwaitingAttestation, AwaitingEscrow, CollectingEntries, CompetitionStatus,
    DeltaBroadcasted, FundingBroadcasted, OutcomeBroadcasted, SigningComplete, StatusKind,
};
use vstd::prelude::*;

verus! {

/// Entries are collected from the first that comes until every place is taken and paid for; then the
/// escrows are waited for, where there are any.
pub proof fn entries_are_collected_until_all_are_paid(
    coordinator: Coordinator,
    status: CompetitionStatus,
    now: Timestamp,
)
    requires
        status is Created || status is CollectingEntries,
    ensures
        ({
            let competition = status.data();
            let places = competition.event_submission.total_allowed_entries;
            let all_paid = competition.total_entries >= places && competition.total_paid_entries
                >= places;
            &&& coordinator.opening(status, now) matches Decision::Become(next)
            &&& status is Created ==> (next is CollectingEntries) == (competition.total_entries > 0)
                && next.data() == competition
            &&& status is CollectingEntries ==> (next is CollectingEntries) == !all_paid
            &&& status is CollectingEntries && all_paid ==> (next is AwaitingEscrow)
                == coordinator.escrow_enabled && (next is EscrowConfirmed)
                == !coordinator.escrow_enabled
            &&& next is EscrowConfirmed ==> next.data() == (Competition {
                escrow_funds_confirmed_at: Some(now),
                ..competition
            })
            &&& !(next is EscrowConfirmed) ==> next.data() == competition
            &&& next.which() == status.which() ==> next == status
        }),
{
}

/// What needs nothing from outside is recorded at the time of the step, and nothing else is.
pub proof fn inner_steps_record_their_milestone(
    coordinator: Coordinator,
    status: CompetitionStatus,
    now: Timestamp,
)
    ensures
        status is FundingConfirmed ==> (coordinator.opening(status, now) matches Decision::Become(
            next,
        ) && next is FundingSettled && next.data() == (Competition {
            funding_settled_at: Some(now),
            ..status.data()
        })),
        status is FundingSettled ==> (coordinator.opening(status, now) matches Decision::Become(
            next,
        ) && next is AwaitingAttestation && next.data() == (Competition {
            awaiting_attestation_at: Some(now),
            ..status.data()
        })),
        status is ExpiryBroadcasted ==> (coordinator.opening(status, now) matches Decision::Become(
            next,
        ) && next is Completed && next.data() == (Competition {
            completed_at: Some(now),
            ..status.data()
        })),
{
}

/// A contract is signed with Keymeld where it is used, and otherwise once every player sent their
/// nonces; until then it waits as it is.
pub proof fn signing_waits_for_every_player(
    coordinator: Coordinator,
    status: CompetitionStatus,
    now: Timestamp,
)
    requires
        status is ContractCreated || status is AwaitingSignatures,
    ensures
        ({
            let competition = status.data();
            let all_sent = competition.total_entry_nonces
                >= competition.event_submission.total_allowed_entries;
            let ready = all_sent && (status is ContractCreated ==> competition.public_nonces is Some);
            let opening = coordinator.opening(status, now);
            &&& opening is Ask == (coordinator.keymeld_enabled || ready)
            &&& !(opening is Ask) ==> opening == Decision::Become(status)
            &&& opening matches Decision::Ask(asking, work) ==> asking == status && (
            coordinator.keymeld_enabled && status is ContractCreated ==> work
                == Work::CheckRegistrations) && (coordinator.keymeld_enabled
                && status is AwaitingSignatures ==> work == Work::SignContract) && (
            !coordinator.keymeld_enabled ==> work == Work::AggregateNonces)
        }),
{
}

/// The players' invoices are settled once the funding transaction has as many confirmations as are
/// asked for, and not twice; without any asked for, they are settled once it is broadcast.
pub proof fn invoices_are_settled_once_funded(
    coordinator: Coordinator,
    status: CompetitionStatus,
    report: Report,
    now: Timestamp,
    decision: Decision,
)
    requires
        status is FundingBroadcasted,
        coordinator.follows(status, Work::CountFundingConfirmations, report, now, decision),
    ensures
        (coordinator.opening(status, now) matches Decision::Ask(_, Work::SettleInvoices)) == (
        coordinator.invoice_settlement_confirmations == 0 && status.data().invoices_settled_at
            is None),
        (coordinator.opening(status, now) matches Decision::Ask(
            _,
            Work::CountFundingConfirmations,
        )) == (coordinator.invoice_settlement_confirmations > 0
            && status.data().funding_transaction is Some),
        coordinator.opening(status, now) is Ask,
        (decision matches Decision::Ask(_, Work::SettleInvoices)) == (
        status.data().invoices_settled_at is None && (report matches Report::Confirmations(
            Some(counted),
        ) && counted >= coordinator.invoice_settlement_confirmations)),
        (decision matches Decision::Ask(_, Work::CheckFunding)) == !(decision matches Decision::Ask(
            _,
            Work::SettleInvoices,
        )),
        decision matches Decision::Ask(asking, _) && asking == status,
{
}

/// Invoices count as settled only once settling them went well, and the funding is looked up either
/// way.
pub proof fn settled_invoices_are_recorded(
    coordinator: Coordinator,
    status: CompetitionStatus,
    report: Report,
    now: Timestamp,
    decision: Decision,
)
    requires
        status is FundingBroadcasted,
        coordinator.follows(status, Work::SettleInvoices, report, now, decision),
    ensures
        decision matches Decision::Ask(asking, work) && work == Work::CheckFunding
            && asking is FundingBroadcasted && asking.id() == status.id() && asking.data() == (
        Competition {
            invoices_settled_at: if report is Failed {
                status.data().invoices_settled_at
            } else {
                Some(now)
            },
            ..status.data()
        }),
{
}

/// The step of a state that only outside work can end, where that work went well.
pub open spec fn moves(
    coordinator: Coordinator,
    status: CompetitionStatus,
    work: Work,
    report: Report,
    now: Timestamp,
    decision: Decision,
) -> bool {
    &&& coordinator.follows(status, work, report, now, decision)
    &&& !(report is Failed)
}

/// Before its contract is signed, a competition moves on exactly if the work of its state left what
/// the next state needs; the move is recorded at the time of the step, and nothing else changes.
pub proof fn preparations_move_on_when_done(
    coordinator: Coordinator,
    status: CompetitionStatus,
    work: Work,
    report: Report,
    now: Timestamp,
    decision: Decision,
)
    requires
        moves(coordinator, status, work, report, now, decision),
        status is AwaitingEscrow || status is EscrowConfirmed || status is EventCreated
            || status is EntriesSubmitted,
    ensures
        decision matches Decision::Become(next) && {
            let competition = status.data();
            &&& status is AwaitingEscrow ==> (next is EscrowConfirmed) == (
            competition.escrow_funds_confirmed_at is Some)
            &&& status is EscrowConfirmed ==> (next is EventCreated) == (
            competition.event_created_at is Some)
            &&& status is EventCreated ==> next is EntriesSubmitted
            &&& status is EntriesSubmitted ==> (next is ContractCreated) == (
            competition.contract_parameters is Some && competition.funding_outpoint is Some
                && competition.funding_psbt_base64 is Some)
            &&& next.which() == status.which() ==> next == status
            &&& next.which() != status.which() ==> next is EscrowConfirmed || next is EventCreated
                || next is EntriesSubmitted || next is ContractCreated
            &&& next is EscrowConfirmed && status is AwaitingEscrow ==> next.data() == (Competition {
                escrow_funds_confirmed_at: Some(now),
                ..competition
            })
            &&& next is EventCreated ==> next.data() == competition
            &&& next is EntriesSubmitted && status is EventCreated ==> next.data() == (Competition {
                entries_submitted_at: Some(now),
                ..competition
            })
            &&& next is ContractCreated ==> next.data() == (Competition {
                contracted_at: Some(now),
                ..competition
            })
        },
{
}

/// A contract is signed once Keymeld's keys are complete or all partial signatures are there, and
/// counts as signed exactly if the signed contract is there.
pub proof fn contracts_are_signed_when_complete(
    coordinator: Coordinator,
    status: CompetitionStatus,
    work: Work,
    report: Report,
    now: Timestamp,
    decision: Decision,
)
    requires
        moves(coordinator, status, work, report, now, decision),
        status is ContractCreated || status is AwaitingSignatures,
    ensures
        work == Work::AggregateNonces ==> ((decision == Decision::Ask(status, Work::SignContract))
            == (status.data().total_entry_partial_signatures
            >= status.data().event_submission.total_allowed_entries)) && (decision is Become
            ==> decision == Decision::Become(status)),
        work == Work::SignContract ==> (decision matches Decision::Become(next) && (
        next is SigningComplete) == (status.data().signed_contract is Some) && (
        next is SigningComplete ==> next.data() == (Competition {
            signed_at: Some(now),
            ..status.data()
        })) && (!(next is SigningComplete) ==> next == status)),
        status is ContractCreated && work == Work::CheckRegistrations ==> (decision
            == Decision::Ask(status, Work::CompleteKeygen)) == (report == Report::Registered(true)),
        status is ContractCreated && work == Work::CheckRegistrations && report
            != Report::Registered(true) ==> decision == Decision::Become(status),
        status is ContractCreated && work == Work::CompleteKeygen ==> (
        decision matches Decision::Become(next) && next is AwaitingSignatures && next.data()
            == status.data()),
{
}

/// Once it is signed, a competition moves on exactly if the work of its state left what the next
/// state needs; the move is recorded at the time of the step, and nothing else changes.
pub proof fn settlements_move_on_when_done(
    coordinator: Coordinator,
    status: CompetitionStatus,
    work: Work,
    report: Report,
    now: Timestamp,
    decision: Decision,
)
    requires
        moves(coordinator, status, work, report, now, decision),
        status is SigningComplete || (status is FundingBroadcasted && work == Work::CheckFunding)
            || status is AwaitingAttestation || status is Attested || status is OutcomeBroadcasted
            || status is DeltaBroadcasted,
    ensures
        decision matches Decision::Become(next) && {
            let competition = status.data();
            let moved = next.which() != status.which();
            &&& !moved ==> next == status
            &&& status is SigningComplete ==> moved == (competition.funding_transaction is Some)
            &&& status is FundingBroadcasted ==> moved == (competition.funding_confirmed_at is Some)
            &&& status is AwaitingAttestation ==> moved == (competition.attestation is Some
                || competition.expiry_broadcasted_at is Some)
            &&& status is Attested ==> moved == (competition.outcome_transaction is Some)
            &&& status is OutcomeBroadcasted ==> moved == (competition.delta_broadcasted_at is Some)
            &&& status is DeltaBroadcasted ==> moved == (competition.completed_at is Some)
            &&& moved && status is SigningComplete ==> next is FundingBroadcasted && next.data() == (
            Competition { funding_broadcasted_at: Some(now), ..competition })
            &&& moved && status is FundingBroadcasted ==> next is FundingConfirmed && next.data()
                == (Competition { funding_confirmed_at: Some(now), ..competition })
            &&& moved && status is AwaitingAttestation ==> (next is Attested) == (
            competition.attestation is Some) && (next is ExpiryBroadcasted) == (
            competition.attestation is None) && next.data() == competition
            &&& moved && status is Attested ==> next is OutcomeBroadcasted && next.data() == (
            Competition { outcome_broadcasted_at: Some(now), ..competition })
            &&& moved && status is OutcomeBroadcasted ==> next is DeltaBroadcasted && next.data()
                == (Competition { delta_broadcasted_at: Some(now), ..competition })
            &&& moved && status is DeltaBroadcasted ==> next is Completed && next.data() == (
            Competition { completed_at: Some(now), ..competition })
        },
{
}

/// A failure while a competition is prepared or signed ends it, of the error that came up; where the
/// chain is only looked at or the oracle asked, it ends only once more errors came up than are put
/// up with, and not at all where asking again may help.
pub proof fn failures_end_what_they_must(
    coordinator: Coordinator,
    status: CompetitionStatus,
    work: Work,
    failure: crate::lifecycle::WorkError,
    now: Timestamp,
    decision: Decision,
)
    requires
        coordinator.follows(status, work, Report::Failed(failure), now, decision),
    ensures
        status is EscrowConfirmed ==> decision == Decision::Fail(
            status,
            CompetitionError::FailedCreateEvent(failure.message),
        ),
        status is EventCreated ==> decision == Decision::Fail(
            status,
            CompetitionError::FailedSubmitEntries(failure.message),
        ),
        status is EntriesSubmitted ==> decision == Decision::Fail(
            status,
            CompetitionError::FailedCreateTransaction(failure.message),
        ),
        status is SigningComplete ==> decision == Decision::Fail(
            status,
            CompetitionError::FailedBroadcast(failure.message),
        ),
        (status is ContractCreated || status is AwaitingSignatures) && work == Work::AggregateNonces
            ==> decision == Decision::Fail(
            status,
            CompetitionError::FailedNonceAggregation(failure.message),
        ),
        (status is ContractCreated || status is AwaitingSignatures) && work == Work::SignContract
            ==> decision == Decision::Fail(
            status,
            CompetitionError::FailedBroadcast(failure.message),
        ),
        status is ContractCreated && work == Work::CompleteKeygen ==> decision == Decision::Fail(
            status,
            CompetitionError::FailedBroadcast(failure.message),
        ),
        status is AwaitingAttestation && failure.transient ==> decision == Decision::Become(status),
        status is AwaitingEscrow || (status is FundingBroadcasted && work == Work::CheckFunding) || (
        status is AwaitingAttestation && !failure.transient) ==> {
            let after = decision.status();
            let errors = status.data().errors@;
            let error = if status is AwaitingEscrow {
                CompetitionError::FailedEscrowConfirmation(failure.message)
            } else if status is FundingBroadcasted {
                CompetitionError::FailedFundingConfirmation(failure.message)
            } else {
                CompetitionError::FailedCheckingAttestation(failure.message)
            };
            &&& decision is Fail == (errors.len() + 1 > coordinator.tolerated_errors)
            &&& decision is Become == (errors.len() + 1 <= coordinator.tolerated_errors)
            &&& after.which() == status.which()
            &&& after.id() == status.id()
            &&& after.data().errors@ == errors.push(error)
            &&& after.data() == (Competition { errors: after.data().errors, ..status.data() })
            &&& decision matches Decision::Fail(_, told) ==> told == error
        },
{
}

/// An error in a settlement is kept as the last, and those that are dropped for it are the oldest.
pub proof fn the_latest_settlement_errors_are_kept(
    coordinator: Coordinator,
    status: CompetitionStatus,
    work: Work,
    failure: crate::lifecycle::WorkError,
    now: Timestamp,
    decision: Decision,
)
    requires
        status is Attested || status is OutcomeBroadcasted || status is DeltaBroadcasted,
        coordinator.kept_settlement_errors > 0,
        coordinator.follows(status, work, Report::Failed(failure), now, decision),
    ensures
        ({
            let before = status.data().errors@;
            let after = decision.status().data().errors@;
            &&& after.len() > 0
            &&& after.last() == CompetitionError::FailedBroadcast(failure.message)
            &&& after.drop_last() == before.skip(before.len() - (after.len() - 1))
            &&& decision.status().data() == (Competition {
                errors: decision.status().data().errors,
                ..status.data()
            })
        }),
{
    let before = status.data().errors@;
    let all = before.push(CompetitionError::FailedBroadcast(failure.message));
    let after = decision.status().data().errors@;
    assert(after == crate::lifecycle::latest(all, coordinator.kept_settlement_errors as nat));
    let dropped = all.len() - after.len();
    assert(after =~= all.skip(dropped));
    assert(after.drop_last() =~= before.skip(dropped));
}

/// What a step decides is what comes of it: a failure is entered with its error, the state that it
/// came from and the time, and nothing else of the competition changes.
pub proof fn failures_are_entered(
    decision: Decision,
    turn: Turn,
    now: Timestamp,
)
    requires
        turn.enacts(decision, now),
    ensures
        decision matches Decision::Become(status) ==> turn == Turn::Done(status),
        decision matches Decision::Ask(status, work) ==> turn == Turn::Do(status, work),
        decision matches Decision::Fail(status, error) ==> (turn matches Turn::Done(next)
            && next matches CompetitionStatus::Failed(failed) && failed.error == error
            && failed.failed_at == now && failed.competition_id == status.id()
            && failed.previous_state@ == status.which().name() && failed.competition == (Competition {
            failed_at: Some(now),
            ..status.data()
        })),
{
}

/// What is stored of a competition names its state: a state before the escrows by how many entries
/// there are, and every other by its own milestone.
pub proof fn stored_fields_name_the_state(competition: Competition)
    ensures
        ({
            let kind = StatusKind::stored(competition);
            let places = competition.event_submission.total_allowed_entries;
            &&& (kind is Cancelled) == (competition.cancelled_at is Some)
            &&& (kind is Failed) == (competition.cancelled_at is None && competition.failed_at
                is Some)
            &&& kind is Created ==> competition.total_entries == 0
            &&& kind is CollectingEntries ==> competition.total_entries > 0 && (
            competition.total_entries < places || competition.total_paid_entries < places)
            &&& kind is AwaitingEscrow ==> competition.total_entries >= places
                && competition.total_paid_entries >= places && competition.escrow_funds_confirmed_at
                is None
            &&& kind is EscrowConfirmed ==> competition.escrow_funds_confirmed_at is Some
                && competition.event_created_at is None
            &&& kind is EventCreated ==> competition.event_created_at is Some
                && competition.entries_submitted_at is None
            &&& kind is EntriesSubmitted ==> competition.entries_submitted_at is Some
                && competition.contracted_at is None
            &&& kind is ContractCreated ==> competition.contracted_at is Some
                && competition.keymeld_keygen_completed_at is None && competition.signed_at is None
            &&& kind is AwaitingSignatures ==> competition.keymeld_keygen_completed_at is Some
                && competition.signed_at is None
            &&& kind is SigningComplete ==> competition.signed_at is Some
                && competition.funding_broadcasted_at is None
            &&& kind is FundingBroadcasted ==> competition.funding_broadcasted_at is Some
                && competition.funding_confirmed_at is None
            &&& kind is FundingConfirmed ==> competition.funding_confirmed_at is Some
                && competition.funding_settled_at is None
            &&& kind is FundingSettled ==> competition.funding_settled_at is Some
                && competition.awaiting_attestation_at is None
            &&& kind is AwaitingAttestation ==> competition.awaiting_attestation_at is Some
                && competition.attestation is None
            &&& kind is Attested ==> competition.attestation is Some
                && competition.expiry_broadcasted_at is None && competition.outcome_broadcasted_at
                is None
            &&& kind is ExpiryBroadcasted ==> competition.expiry_broadcasted_at is Some
                && competition.outcome_broadcasted_at is None
            &&& kind is OutcomeBroadcasted ==> competition.outcome_broadcasted_at is Some
                && competition.delta_broadcasted_at is None
            &&& kind is DeltaBroadcasted ==> competition.delta_broadcasted_at is Some
                && competition.completed_at is None
            &&& kind is Completed ==> competition.completed_at is Some
        }),
{
}

/// Every share is closed in its turn, and recorded right after.
proof fn shares_are_closed_in_turn(winners: Seq<Winner>)
    ensures
        share_closes(winners).len() == 2 * winners.len(),
        forall|i: int|
            0 <= i < winners.len() ==> share_closes(winners)[2 * i]
                == SettlementStepView::CloseShare(#[trigger] winners[i]) && share_closes(winners)[2 * i
                + 1] == SettlementStepView::MarkClosed(winners[i]),
    decreases winners.len(),
{
    if winners.len() > 0 {
        let fewer = winners.drop_last();
        shares_are_closed_in_turn(fewer);
        assert forall|i: int| 0 <= i < winners.len() implies share_closes(winners)[2 * i]
            == SettlementStepView::CloseShare(#[trigger] winners[i]) && share_closes(winners)[2 * i
            + 1] == SettlementStepView::MarkClosed(winners[i]) by {
            if i < fewer.len() {
                assert(fewer[i] == winners[i]);
                assert(share_closes(winners)[2 * i] == share_closes(fewer)[2 * i]);
                assert(share_closes(winners)[2 * i + 1] == share_closes(fewer)[2 * i + 1]);
            }
        }
    }
}

/// Every share is reclaimed in its turn, and recorded right after.
proof fn shares_are_reclaimed_in_turn(winners: Seq<Winner>)
    ensures
        share_reclaims(winners).len() == 2 * winners.len(),
        forall|i: int|
            0 <= i < winners.len() ==> share_reclaims(winners)[2 * i]
                == SettlementStepView::ReclaimShare(#[trigger] winners[i]) && share_reclaims(winners)[2
                * i + 1] == SettlementStepView::MarkReclaimed(winners[i]),
    decreases winners.len(),
{
    if winners.len() > 0 {
        let fewer = winners.drop_last();
        shares_are_reclaimed_in_turn(fewer);
        assert forall|i: int| 0 <= i < winners.len() implies share_reclaims(winners)[2 * i]
            == SettlementStepView::ReclaimShare(#[trigger] winners[i]) && share_reclaims(winners)[2 * i
            + 1] == SettlementStepView::MarkReclaimed(winners[i]) by {
            if i < fewer.len() {
                assert(fewer[i] == winners[i]);
                assert(share_reclaims(winners)[2 * i] == share_reclaims(fewer)[2 * i]);
                assert(share_reclaims(winners)[2 * i + 1] == share_reclaims(fewer)[2 * i + 1]);
            }
        }
    }
}

/// What is chosen is published in full: a whole close, then each of its winners recorded; or the
/// split, where it is still owed, then the close of each share and its record; and at the end that it
/// is done. Nothing is published while it has to wait.
pub proof fn outcomes_are_settled_in_full(choice: DeltaChoice)
    ensures
        ({
            let steps = delta_steps_of(choice);
            &&& choice is Unconfirmed || choice is Wait ==> steps.len() == 0
            &&& choice matches DeltaChoice::Close(broadcast, winners) ==> {
                &&& steps.len() == winners.len() + 2
                &&& steps[0] == SettlementStepView::Close(broadcast, winners)
                &&& forall|i: int|
                    0 <= i < winners.len() ==> steps[i + 1] == SettlementStepView::MarkClosed(
                        #[trigger] winners[i],
                    )
                &&& steps.last() is FinishDelta
            }
            &&& choice matches DeltaChoice::Split(split_with, closed) ==> {
                let from: int = if split_with is Some {
                    1
                } else {
                    0
                };
                &&& steps.len() == from + 2 * closed.len() + 1
                &&& split_with matches Some(winner) ==> steps[0] == SettlementStepView::Split(winner)
                &&& forall|i: int|
                    0 <= i < closed.len() ==> steps[from + 2 * i] == SettlementStepView::CloseShare(
                        #[trigger] closed[i],
                    ) && steps[from + 2 * i + 1] == SettlementStepView::MarkClosed(closed[i])
                &&& steps.last() is FinishDelta
            }
        }),
{
    if let DeltaChoice::Split(split_with, closed) = choice {
        shares_are_closed_in_turn(closed);
        let steps = delta_steps_of(choice);
        let from: int = if split_with is Some {
            1
        } else {
            0
        };
        assert forall|i: int| 0 <= i < closed.len() implies steps[from + 2 * i]
            == SettlementStepView::CloseShare(#[trigger] closed[i]) && steps[from + 2 * i + 1]
            == SettlementStepView::MarkClosed(closed[i]) by {
            assert(steps[from + 2 * i] == share_closes(closed)[2 * i]);
            assert(steps[from + 2 * i + 1] == share_closes(closed)[2 * i + 1]);
        }
    }
}

/// What nobody claimed is reclaimed in full: each share, and its record, and at the end that it is
/// done. Nothing is published while it has to wait.
pub proof fn reclaims_are_made_in_full(choice: ReclaimChoice)
    ensures
        ({
            let steps = reclaim_steps_of(choice);
            &&& choice is Unconfirmed || choice is Wait ==> steps.len() == 0
            &&& choice matches ReclaimChoice::Reclaim(winners) ==> {
                &&& steps.len() == 2 * winners.len() + 1
                &&& forall|i: int|
                    0 <= i < winners.len() ==> steps[2 * i] == SettlementStepView::ReclaimShare(
                        #[trigger] winners[i],
                    ) && steps[2 * i + 1] == SettlementStepView::MarkReclaimed(winners[i])
                &&& steps.last() is FinishReclaims
            }
        }),
{
    if let ReclaimChoice::Reclaim(winners) = choice {
        shares_are_reclaimed_in_turn(winners);
        let steps = reclaim_steps_of(choice);
        assert forall|i: int| 0 <= i < winners.len() implies steps[2 * i]
            == SettlementStepView::ReclaimShare(#[trigger] winners[i]) && steps[2 * i + 1]
            == SettlementStepView::MarkReclaimed(winners[i]) by {
            assert(steps[2 * i] == share_reclaims(winners)[2 * i]);
            assert(steps[2 * i + 1] == share_reclaims(winners)[2 * i + 1]);
        }
    }
}

/// What is built is broadcast, but for a whole close that was broadcast before; and nothing is built
/// for what is only recorded.
pub proof fn what_is_built_is_broadcast(
    step: SettlementStepView,
    contract: crate::contract::SignedContract,
    outcome: crate::contract::Outcome,
    entries: Seq<crate::entries::UserEntry>,
    ticket: Option<crate::entries::Ticket>,
    key: Seq<u8>,
    fee_rate: u64,
)
    ensures
        ({
            let built = published(step, contract, outcome, entries, ticket, key, fee_rate);
            let records_only = step is MarkClosed || step is MarkReclaimed || step is FinishDelta
                || step is FinishReclaims;
            &&& records_only ==> built == Ok::<Option<Seq<u8>>, crate::settlement::SettlementError>(
                None,
            ) && !broadcasts(step)
            &&& !records_only && built is Ok ==> built->Ok_0 is Some
            &&& !records_only && !broadcasts(step) ==> (step matches SettlementStepView::Close(
                again,
                _,
            ) && !again)
            &&& step matches SettlementStepView::Close(again, _) ==> broadcasts(step) == again
            &&& step is Split && ticket is None ==> built is Err
        }),
{
}

/// An outcome counts as settled once its close or its split is broadcast, and a competition as
/// completed once its reclaims are done; then, and once a settlement is done, its errors are
/// forgotten. No other step changes the competition.
pub proof fn only_settlements_are_recorded(
    before: Competition,
    after: Competition,
    step: SettlementStepView,
    now: Timestamp,
)
    requires
        records(before, after, step, now),
    ensures
        step is Split || (step matches SettlementStepView::Close(broadcast, _) && broadcast)
            ==> settles(step) && after == (Competition { delta_broadcasted_at: Some(now), ..before }),
        step matches SettlementStepView::Close(broadcast, _) && !broadcast ==> after == before,
        step is CloseShare || step is MarkClosed || step is ReclaimShare || step is MarkReclaimed
            ==> after == before && !settles(step),
        step is FinishDelta ==> after.errors@.len() == 0 && after == (Competition {
            errors: after.errors,
            ..before
        }),
        step is FinishReclaims ==> after.errors@.len() == 0 && after == (Competition {
            errors: after.errors,
            completed_at: Some(now),
            ..before
        }),
{
}

/// What each state makes of its own event is recorded at the time that it is told, in the state that
/// follows, and nothing else changes.
pub proof fn events_are_recorded_at_their_time(
    collecting: CollectingEntries,
    escrow: AwaitingEscrow,
    signing: SigningComplete,
    broadcasted: FundingBroadcasted,
    attestation: AwaitingAttestation,
    attested: Attested,
    outcome: OutcomeBroadcasted,
    delta: DeltaBroadcasted,
    tx: Transaction,
    now: Timestamp,
)
    ensures
        collecting.into_escrow_confirmed_spec(now) is EscrowConfirmed,
        collecting.into_escrow_confirmed_spec(now).data() == (Competition {
            escrow_funds_confirmed_at: Some(now),
            ..collecting.competition
        }),
        escrow.escrow_confirmed_spec(now) is EscrowConfirmed,
        escrow.escrow_confirmed_spec(now).data() == (Competition {
            escrow_funds_confirmed_at: Some(now),
            ..escrow.competition
        }),
        signing.funding_broadcasted_spec(tx, now) is FundingBroadcasted,
        signing.funding_broadcasted_spec(tx, now).data() == (Competition {
            funding_transaction: Some(tx),
            funding_broadcasted_at: Some(now),
            ..signing.competition
        }),
        broadcasted.funding_confirmed_spec(now) is FundingConfirmed,
        broadcasted.funding_confirmed_spec(now).data() == (Competition {
            funding_confirmed_at: Some(now),
            ..broadcasted.competition
        }),
        attestation.expired_spec(now) is ExpiryBroadcasted,
        attestation.expired_spec(now).data() == (Competition {
            expiry_broadcasted_at: Some(now),
            ..attestation.competition
        }),
        attested.outcome_broadcasted_spec(tx, now) is OutcomeBroadcasted,
        attested.outcome_broadcasted_spec(tx, now).data() == (Competition {
            outcome_transaction: Some(tx),
            outcome_broadcasted_at: Some(now),
            ..attested.competition
        }),
        outcome.delta_broadcasted_spec(now) is DeltaBroadcasted,
        outcome.delta_broadcasted_spec(now).data() == (Competition {
            delta_broadcasted_at: Some(now),
            ..outcome.competition
        }),
        delta.completed_spec(now) is Completed,
        delta.completed_spec(now).data() == (Competition {
            completed_at: Some(now),
            ..delta.competition
        }),
{
}

/// A contract's expiry is a time exactly if it is no block height, and the oracle is not asked past
/// it.
pub proof fn expiries_are_times_or_heights(state: AwaitingAttestation)
    ensures
        ({
            let expiry = (state.competition.signed_contract->0).params.event.expiry;
            state.contract_expiry() == if state.competition.signed_contract is Some && expiry is Some
                && expiry->0 >= 500_000_000 {
                Some(expiry->0 * 1_000_000_000)
            } else {
                None
            }
        }),
{
}

/// Stopping a competition is told with its reason, the state that it came from and the time, and
/// changes nothing else of it.
pub proof fn stops_are_told_with_their_reason(
    from: CompetitionStatus,
    to: CompetitionStatus,
    reason: String,
    now: Timestamp,
)
    requires
        to.cancelled_from(from, reason, now),
    ensures
        to matches CompetitionStatus::Cancelled(cancelled) && cancelled.reason == reason
            && cancelled.cancelled_at == now && cancelled.competition_id == from.id()
            && cancelled.previous_state@ == from.which().name(),
        to.data() == (Competition { cancelled_at: Some(now), ..from.data() }),
{
}

} // verus!
