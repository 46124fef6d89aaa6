//! Publishing a settlement: what is broadcast and recorded for a plan, one step after the other.
//!
//! A step that fails ends the run; what was done before it stays, and the next run plans anew.

use crate::clock::Timestamp;
use crate::competition::Competition;
use crate::contract::{Outcome, Player, SignedContract, Transaction};
use crate::enforcement::{
    build_close_transaction, build_share_close_transaction, build_share_reclaim_transaction,
    build_split_transaction, close_of, share_close_of, share_reclaim_of, split_of,
};
use crate::entries::{Ticket, UserEntry};
use crate::progress::clear_errors;
use crate::settlement::{
    current_outcome, delta_choice, delta_was_broadcast, entry_of, paid_winners,
    plan_delta2_transactions, plan_delta_transactions, reclaim_choice, reclaims_were_broadcast,
    winners_of, DeltaChoice, DeltaPlan, ReclaimChoice, ReclaimPlan, SettlementError, Winner,
};
use vstd::prelude::*;

verus! {

/// A step of publishing a settlement.
#[derive(Debug)]
pub enum SettlementStep {
    /// Close the whole outcome with the keys of these winners, and broadcast it if asked to.
    Close { broadcast: bool, winners: Vec<Winner> },
    /// Broadcast the split of the outcome, unlocked with this winner's ticket.
    Split(Winner),
    /// Broadcast the close of this winner's share.
    CloseShare(Winner),
    /// Record that this winner's share was closed.
    MarkClosed(Winner),
    /// Broadcast the reclaim of this winner's share.
    ReclaimShare(Winner),
    /// Record that this winner's share was reclaimed.
    MarkReclaimed(Winner),
    /// The outcome is closed or split.
    FinishDelta,
    /// Nothing is left to be paid.
    FinishReclaims,
}

/// A step of publishing a settlement, with its winners as a sequence.
pub enum SettlementStepView {
    Close(bool, Seq<Winner>),
    Split(Winner),
    CloseShare(Winner),
    MarkClosed(Winner),
    ReclaimShare(Winner),
    MarkReclaimed(Winner),
    FinishDelta,
    FinishReclaims,
}

impl View for SettlementStep {
    type V = SettlementStepView;

    open spec fn view(&self) -> SettlementStepView {
        match *self {
            SettlementStep::Close { broadcast, winners } => SettlementStepView::Close(
                broadcast,
                winners@,
            ),
            SettlementStep::Split(winner) => SettlementStepView::Split(winner),
            SettlementStep::CloseShare(winner) => SettlementStepView::CloseShare(winner),
            SettlementStep::MarkClosed(winner) => SettlementStepView::MarkClosed(winner),
            SettlementStep::ReclaimShare(winner) => SettlementStepView::ReclaimShare(winner),
            SettlementStep::MarkReclaimed(winner) => SettlementStepView::MarkReclaimed(winner),
            SettlementStep::FinishDelta => SettlementStepView::FinishDelta,
            SettlementStep::FinishReclaims => SettlementStepView::FinishReclaims,
        }
    }
}

/// The steps, with their winners as sequences.
pub open spec fn steps_view(steps: Seq<SettlementStep>) -> Seq<SettlementStepView> {
    steps.map_values(|step: SettlementStep| step@)
}

/// Each winner's share is recorded as closed.
pub open spec fn marks(winners: Seq<Winner>) -> Seq<SettlementStepView> {
    winners.map_values(|winner: Winner| SettlementStepView::MarkClosed(winner))
}

/// Each winner's share is closed, and recorded as closed right after.
pub open spec fn share_closes(winners: Seq<Winner>) -> Seq<SettlementStepView>
    decreases winners.len(),
{
    if winners.len() == 0 {
        Seq::empty()
    } else {
        share_closes(winners.drop_last()).push(
            SettlementStepView::CloseShare(winners.last()),
        ).push(SettlementStepView::MarkClosed(winners.last()))
    }
}

/// Each winner's share is reclaimed, and recorded as reclaimed right after.
pub open spec fn share_reclaims(winners: Seq<Winner>) -> Seq<SettlementStepView>
    decreases winners.len(),
{
    if winners.len() == 0 {
        Seq::empty()
    } else {
        share_reclaims(winners.drop_last()).push(
            SettlementStepView::ReclaimShare(winners.last()),
        ).push(SettlementStepView::MarkReclaimed(winners.last()))
    }
}

/// The steps of closing or splitting an outcome; none while that has to wait.
pub open spec fn delta_steps_of(choice: DeltaChoice) -> Seq<SettlementStepView> {
    match choice {
        DeltaChoice::Unconfirmed => Seq::empty(),
        DeltaChoice::Wait(_) => Seq::empty(),
        DeltaChoice::Close(broadcast, winners) => (seq![
            SettlementStepView::Close(broadcast, winners),
        ] + marks(winners)).push(SettlementStepView::FinishDelta),
        DeltaChoice::Split(split_with, closes) => (match split_with {
            Some(winner) => seq![SettlementStepView::Split(winner)],
            None => Seq::empty(),
        } + share_closes(closes)).push(SettlementStepView::FinishDelta),
    }
}

/// The steps of reclaiming what nobody claimed; none while that has to wait.
pub open spec fn reclaim_steps_of(choice: ReclaimChoice) -> Seq<SettlementStepView> {
    match choice {
        ReclaimChoice::Unconfirmed => Seq::empty(),
        ReclaimChoice::Wait(_) => Seq::empty(),
        ReclaimChoice::Reclaim(winners) => share_reclaims(winners).push(
            SettlementStepView::FinishReclaims,
        ),
    }
}

/// Append a step.
fn push_step(steps: &mut Vec<SettlementStep>, step: SettlementStep)
    ensures
        steps_view(final(steps)@) == steps_view(old(steps)@).push(step@),
{
    let ghost before = steps_view(steps@);
    let ghost added = step@;
    steps.push(step);
    assert(steps_view(steps@) =~= before.push(added));
}

/// The steps of closing or splitting an outcome, in order.
pub fn delta_steps(plan: DeltaPlan) -> (steps: Vec<SettlementStep>)
    ensures
        steps_view(steps@) == delta_steps_of(plan@),
{
    let mut steps: Vec<SettlementStep> = Vec::new();
    assert(steps_view(steps@) =~= Seq::empty());
    match plan {
        DeltaPlan::Unconfirmed => steps,
        DeltaPlan::Wait(_) => steps,
        DeltaPlan::Close { broadcast, winners } => {
            let ghost all = winners@;
            let marked = winners.clone();
            assert(marked@ =~= all);
            push_step(&mut steps, SettlementStep::Close { broadcast, winners });
            let ghost first = seq![SettlementStepView::Close(broadcast, all)];
            let mut i: usize = 0;
            assert(steps_view(steps@) =~= first + marks(all.take(0)));
            while i < marked.len()
                invariant
                    i <= marked@.len(),
                    marked@ == all,
                    steps_view(steps@) == first + marks(all.take(i as int)),
                decreases marked@.len() - i,
            {
                let ghost before = steps_view(steps@);
                push_step(&mut steps, SettlementStep::MarkClosed(marked[i]));
                assert(marks(all.take(i + 1)) =~= marks(all.take(i as int)).push(
                    SettlementStepView::MarkClosed(all[i as int]),
                ));
                assert(steps_view(steps@) =~= first + marks(all.take(i + 1)));
                i = i + 1;
            }
            assert(all.take(i as int) =~= all);
            push_step(&mut steps, SettlementStep::FinishDelta);
            steps
        },
        DeltaPlan::Split { split_with, closes } => {
            let ghost all = closes@;
            let ghost first: Seq<SettlementStepView> = match split_with {
                Some(winner) => seq![SettlementStepView::Split(winner)],
                None => Seq::empty(),
            };
            if let Some(winner) = split_with {
                push_step(&mut steps, SettlementStep::Split(winner));
            }
            let mut i: usize = 0;
            assert(all.take(0) =~= Seq::empty());
            assert(steps_view(steps@) =~= first + share_closes(all.take(0)));
            while i < closes.len()
                invariant
                    i <= closes@.len(),
                    closes@ == all,
                    steps_view(steps@) == first + share_closes(all.take(i as int)),
                decreases closes@.len() - i,
            {
                assert(all.take(i + 1).drop_last() =~= all.take(i as int));
                push_step(&mut steps, SettlementStep::CloseShare(closes[i]));
                push_step(&mut steps, SettlementStep::MarkClosed(closes[i]));
                assert(steps_view(steps@) =~= first + share_closes(all.take(i + 1)));
                i = i + 1;
            }
            assert(all.take(i as int) =~= all);
            push_step(&mut steps, SettlementStep::FinishDelta);
            steps
        },
    }
}

/// The steps of reclaiming what nobody claimed, in order.
pub fn reclaim_steps(plan: ReclaimPlan) -> (steps: Vec<SettlementStep>)
    ensures
        steps_view(steps@) == reclaim_steps_of(plan@),
{
    let mut steps: Vec<SettlementStep> = Vec::new();
    assert(steps_view(steps@) =~= Seq::empty());
    match plan {
        ReclaimPlan::Unconfirmed => steps,
        ReclaimPlan::Wait(_) => steps,
        ReclaimPlan::Reclaim(winners) => {
            let ghost all = winners@;
            let mut i: usize = 0;
            assert(all.take(0) =~= Seq::empty());
            while i < winners.len()
                invariant
                    i <= winners@.len(),
                    winners@ == all,
                    steps_view(steps@) == share_reclaims(all.take(i as int)),
                decreases winners@.len() - i,
            {
                assert(all.take(i + 1).drop_last() =~= all.take(i as int));
                push_step(&mut steps, SettlementStep::ReclaimShare(winners[i]));
                push_step(&mut steps, SettlementStep::MarkReclaimed(winners[i]));
                i = i + 1;
            }
            assert(all.take(i as int) =~= all);
            push_step(&mut steps, SettlementStep::FinishReclaims);
            steps
        },
    }
}

/// Every winner whose key a step needs has an entry among this many.
pub open spec fn stands_among(step: SettlementStepView, entries: nat) -> bool {
    match step {
        SettlementStepView::Close(_, winners) => all_stand(winners, entries),
        SettlementStepView::CloseShare(winner) => winner.entry_index < entries,
        _ => true,
    }
}

/// Every winner has an entry among this many.
pub open spec fn all_stand(winners: Seq<Winner>, entries: nat) -> bool {
    forall|i: int| 0 <= i < winners.len() ==> (#[trigger] winners[i]).entry_index < entries
}

/// The winners who were paid have entries.
proof fn paid_winners_stand(entries: Seq<UserEntry>, players: Seq<Player>, winners: Seq<usize>)
    requires
        entries.len() <= usize::MAX,
    ensures
        all_stand(paid_winners(entries, players, winners), entries.len()),
    decreases winners.len(),
{
    if winners.len() > 0 {
        paid_winners_stand(entries, players, winners.drop_last());
        entry_is_among(entries, players, winners.last(), 0);
    }
}

/// The entry of a player is one of the entries.
proof fn entry_is_among(
    entries: Seq<UserEntry>,
    players: Seq<Player>,
    player_index: usize,
    from: int,
)
    requires
        entries.len() <= usize::MAX,
    ensures
        entry_of(entries, players, player_index, from) matches Some(at) ==> at < entries.len(),
    decreases entries.len() - from,
{
    if 0 <= from < entries.len() {
        entry_is_among(entries, players, player_index, from + 1);
    }
}

/// The steps of closing shares name only their winners.
proof fn share_closes_stand(winners: Seq<Winner>, entries: nat)
    requires
        all_stand(winners, entries),
    ensures
        forall|i: int|
            0 <= i < share_closes(winners).len() ==> stands_among(
                #[trigger] share_closes(winners)[i],
                entries,
            ),
    decreases winners.len(),
{
    if winners.len() > 0 {
        let earlier = winners.drop_last();
        assert forall|i: int| 0 <= i < earlier.len() implies (#[trigger] earlier[i]).entry_index
            < entries by {
            assert(earlier[i] == winners[i]);
        }
        share_closes_stand(earlier, entries);
        assert(winners[winners.len() - 1].entry_index < entries);
        assert forall|i: int| 0 <= i < share_closes(winners).len() implies stands_among(
            #[trigger] share_closes(winners)[i],
            entries,
        ) by {
            if i < share_closes(earlier).len() {
                assert(share_closes(winners)[i] == share_closes(earlier)[i]);
            }
        }
    }
}

/// Plan how an outcome is closed or split now, and take the plan apart into its steps. There are
/// none while that has to wait.
pub fn delta_publication(
    competition: &Competition,
    current_height: u32,
    outcome_height: Option<u32>,
    entries: &Vec<UserEntry>,
) -> (steps: Result<Vec<SettlementStep>, SettlementError>)
    ensures
        match delta_choice(*competition, current_height, outcome_height, entries@) {
            Ok(choice) => steps matches Ok(steps) && steps_view(steps@) == delta_steps_of(choice),
            Err(error) => steps matches Err(told) && told == error,
        },
        steps matches Ok(steps) ==> forall|i: int|
            0 <= i < steps@.len() ==> stands_among((#[trigger] steps@[i])@, entries@.len()),
{
    match plan_delta_transactions(competition, current_height, outcome_height, entries) {
        Err(error) => Err(error),
        Ok(plan) => {
            let ghost choice = plan@;
            proof {
                assert(entries.len() == entries@.len());
                choices_stand(*competition, current_height, outcome_height, entries@, choice);
            }
            let steps = delta_steps(plan);
            proof {
                assert forall|i: int| 0 <= i < steps@.len() implies stands_among(
                    (#[trigger] steps@[i])@,
                    entries@.len(),
                ) by {
                    assert(steps_view(steps@)[i] == steps@[i]@);
                }
            }
            Ok(steps)
        },
    }
}

/// Every winner that the steps of a plan name has an entry.
proof fn choices_stand(
    competition: Competition,
    current_height: u32,
    outcome_height: Option<u32>,
    entries: Seq<UserEntry>,
    choice: DeltaChoice,
)
    requires
        entries.len() <= usize::MAX,
        delta_choice(competition, current_height, outcome_height, entries) == Ok::<
            DeltaChoice,
            SettlementError,
        >(choice),
    ensures
        forall|i: int|
            0 <= i < delta_steps_of(choice).len() ==> stands_among(
                #[trigger] delta_steps_of(choice)[i],
                entries.len(),
            ),
{
    if choice is Close || choice is Split {
        let params = (competition.signed_contract->0).params;
        let outcome = current_outcome(competition)->Ok_0;
        let winners = winners_of(params.outcome_payouts.weights(outcome)->0);
        paid_winners_stand(entries, params.players@, winners);
        let paid = paid_winners(entries, params.players@, winners);
        share_closes_stand(paid, entries.len());
    }
}

/// Plan how what nobody claimed is reclaimed now, and take the plan apart into its steps. There are
/// none while that has to wait.
pub fn reclaim_publication(
    competition: &Competition,
    current_height: u32,
    outcome_height: Option<u32>,
    entries: &Vec<UserEntry>,
) -> (steps: Result<Vec<SettlementStep>, SettlementError>)
    ensures
        match reclaim_choice(*competition, current_height, outcome_height, entries@) {
            Ok(choice) => steps matches Ok(steps) && steps_view(steps@) == reclaim_steps_of(choice),
            Err(error) => steps matches Err(told) && told == error,
        },
{
    match plan_delta2_transactions(competition, current_height, outcome_height, entries) {
        Err(error) => Err(error),
        Ok(plan) => Ok(reclaim_steps(plan)),
    }
}

/// What is built for a step, in its consensus encoding; nothing for one that only records.
pub open spec fn published(
    step: SettlementStepView,
    contract: SignedContract,
    outcome: Outcome,
    entries: Seq<UserEntry>,
    ticket: Option<Ticket>,
    key: Seq<u8>,
    fee_rate: u64,
) -> Result<Option<Seq<u8>>, SettlementError> {
    match step {
        SettlementStepView::Close(_, winners) => some_transaction(
            close_of(contract, outcome, entries, winners, key, fee_rate),
        ),
        SettlementStepView::Split(winner) => match ticket {
            None => Err(SettlementError::NoTicket),
            Some(ticket) => some_transaction(
                split_of(contract, outcome, winner.player_index, ticket.encrypted_preimage@),
            ),
        },
        SettlementStepView::CloseShare(winner) => some_transaction(
            share_close_of(
                contract,
                outcome,
                winner.player_index,
                entries[winner.entry_index as int],
                key,
                fee_rate,
            ),
        ),
        SettlementStepView::ReclaimShare(winner) => some_transaction(
            share_reclaim_of(contract, outcome, winner.player_index, key, fee_rate),
        ),
        _ => Ok(None),
    }
}

/// A transaction that is there, if it could be built.
pub open spec fn some_transaction(built: Result<Seq<u8>, SettlementError>) -> Result<
    Option<Seq<u8>>,
    SettlementError,
> {
    match built {
        Ok(raw) => Ok(Some(raw)),
        Err(error) => Err(error),
    }
}

/// A transaction that is there, if it could be built.
fn some_built(built: Result<Transaction, SettlementError>) -> (tx: Result<
    Option<Transaction>,
    SettlementError,
>)
    ensures
        match built {
            Ok(built) => tx == Ok::<Option<Transaction>, SettlementError>(Some(built)),
            Err(error) => tx == Err::<Option<Transaction>, SettlementError>(error),
        },
{
    match built {
        Ok(built) => Ok(Some(built)),
        Err(error) => Err(error),
    }
}

/// Build what a step publishes; nothing for one that only records. `ticket` is that of the winner
/// whom a split names, `key` the market maker's own, and `fee_rate` in satoshis per 1000 weight
/// units.
pub fn build_step(
    step: &SettlementStep,
    contract: &SignedContract,
    outcome: Outcome,
    entries: &Vec<UserEntry>,
    ticket: &Option<Ticket>,
    key: &Vec<u8>,
    fee_rate: u64,
) -> (tx: Result<Option<Transaction>, SettlementError>)
    requires
        stands_among(step@, entries@.len()),
    ensures
        match published(step@, *contract, outcome, entries@, *ticket, key@, fee_rate) {
            Ok(Some(raw)) => tx matches Ok(Some(built)) && built.raw@ == raw,
            Ok(None) => tx matches Ok(None),
            Err(error) => tx matches Err(told) && told == error,
        },
{
    match step {
        SettlementStep::Close { broadcast: _, winners } => some_built(
            build_close_transaction(contract, outcome, entries, winners, key, fee_rate),
        ),
        SettlementStep::Split(winner) => match ticket {
            None => Err(SettlementError::NoTicket),
            Some(ticket) => some_built(
                build_split_transaction(contract, outcome, winner.player_index, ticket),
            ),
        },
        SettlementStep::CloseShare(winner) => some_built(
            build_share_close_transaction(
                contract,
                outcome,
                winner.player_index,
                &entries[winner.entry_index],
                key,
                fee_rate,
            ),
        ),
        SettlementStep::ReclaimShare(winner) => some_built(
            build_share_reclaim_transaction(contract, outcome, winner.player_index, key, fee_rate),
        ),
        SettlementStep::MarkClosed(_) => Ok(None),
        SettlementStep::MarkReclaimed(_) => Ok(None),
        SettlementStep::FinishDelta => Ok(None),
        SettlementStep::FinishReclaims => Ok(None),
    }
}

/// What a step publishes is broadcast.
pub open spec fn broadcasts(step: SettlementStepView) -> bool {
    match step {
        SettlementStepView::Close(broadcast, _) => broadcast,
        SettlementStepView::Split(_) => true,
        SettlementStepView::CloseShare(_) => true,
        SettlementStepView::ReclaimShare(_) => true,
        _ => false,
    }
}

/// Whether what a step publishes is broadcast. An outcome that was closed before is only closed once
/// more to see that it can be.
pub fn is_broadcast(step: &SettlementStep) -> (broadcast: bool)
    ensures
        broadcast == broadcasts(step@),
{
    match step {
        SettlementStep::Close { broadcast, winners: _ } => *broadcast,
        SettlementStep::Split(_) => true,
        SettlementStep::CloseShare(_) => true,
        SettlementStep::ReclaimShare(_) => true,
        SettlementStep::MarkClosed(_) => false,
        SettlementStep::MarkReclaimed(_) => false,
        SettlementStep::FinishDelta => false,
        SettlementStep::FinishReclaims => false,
    }
}

/// The settlement of the outcome is on its way once this step is done.
pub open spec fn settles(step: SettlementStepView) -> bool {
    match step {
        SettlementStepView::Close(broadcast, _) => broadcast,
        SettlementStepView::Split(_) => true,
        _ => false,
    }
}

/// What is recorded in the competition once a step is done.
pub open spec fn records(
    before: Competition,
    after: Competition,
    step: SettlementStepView,
    now: Timestamp,
) -> bool {
    let finished = step is FinishDelta || step is FinishReclaims;
    &&& finished ==> after.errors@.len() == 0
    &&& !finished ==> after.errors == before.errors
    &&& after == (Competition {
        delta_broadcasted_at: if settles(step) {
            Some(now)
        } else {
            before.delta_broadcasted_at
        },
        completed_at: if step is FinishReclaims {
            Some(now)
        } else {
            before.completed_at
        },
        errors: after.errors,
        ..before
    })
}

/// A step was done: record in the competition what came of it.
pub fn step_was_done(competition: &mut Competition, step: &SettlementStep, now: Timestamp)
    ensures
        records(*old(competition), *final(competition), step@, now),
{
    match step {
        SettlementStep::Close { broadcast, winners: _ } => if *broadcast {
            delta_was_broadcast(competition, now);
        },
        SettlementStep::Split(_) => {
            delta_was_broadcast(competition, now);
        },
        SettlementStep::FinishDelta => {
            clear_errors(competition);
        },
        SettlementStep::FinishReclaims => {
            reclaims_were_broadcast(competition, now);
        },
        SettlementStep::CloseShare(_) => {},
        SettlementStep::MarkClosed(_) => {},
        SettlementStep::ReclaimShare(_) => {},
        SettlementStep::MarkReclaimed(_) => {},
    }
}

/// The step closes the winner's share, or the whole outcome with their key among others'.
pub open spec fn closes(step: SettlementStepView, winner: Winner) -> bool {
    match step {
        SettlementStepView::Close(_, winners) => winners.contains(winner),
        SettlementStepView::CloseShare(closed) => closed == winner,
        _ => false,
    }
}

/// No share is recorded as closed before what closes it was built and broadcast: whatever a run
/// comes to, a winner whose share is recorded was closed in an earlier step.
pub proof fn shares_are_recorded_after_they_are_closed(choice: DeltaChoice, at: int)
    requires
        0 <= at < delta_steps_of(choice).len(),
        delta_steps_of(choice)[at] is MarkClosed,
    ensures
        exists|earlier: int|
            0 <= earlier < at && closes(
                #[trigger] delta_steps_of(choice)[earlier],
                delta_steps_of(choice)[at]->MarkClosed_0,
            ),
{
    let steps = delta_steps_of(choice);
    match choice {
        DeltaChoice::Close(broadcast, winners) => {
            assert(steps[at] == marks(winners)[at - 1]);
            assert(winners[at - 1] == steps[at]->MarkClosed_0);
            assert(closes(steps[0], steps[at]->MarkClosed_0));
        },
        DeltaChoice::Split(split_with, closed) => {
            let offset: int = if split_with is Some {
                1
            } else {
                0
            };
            assert(steps[at] == share_closes(closed)[at - offset]);
            mark_follows_close(closed, at - offset);
            assert(steps[at - 1] == share_closes(closed)[at - offset - 1]);
            assert(closes(steps[at - 1], steps[at]->MarkClosed_0));
        },
        _ => {},
    }
}

/// A share is recorded as closed right after it is.
proof fn mark_follows_close(winners: Seq<Winner>, at: int)
    requires
        0 <= at < share_closes(winners).len(),
        share_closes(winners)[at] is MarkClosed,
    ensures
        at > 0,
        share_closes(winners)[at - 1] == SettlementStepView::CloseShare(
            share_closes(winners)[at]->MarkClosed_0,
        ),
    decreases winners.len(),
{
    if winners.len() > 0 {
        let earlier = share_closes(winners.drop_last());
        if at < earlier.len() {
            assert(share_closes(winners)[at] == earlier[at]);
            mark_follows_close(winners.drop_last(), at);
            assert(share_closes(winners)[at - 1] == earlier[at - 1]);
        }
    }
}

/// A split or a close is broadcast once: a competition that has recorded one plans neither again.
pub proof fn a_settlement_is_published_once(
    competition: Competition,
    current_height: u32,
    outcome_height: Option<u32>,
    entries: Seq<UserEntry>,
    choice: DeltaChoice,
    at: int,
)
    requires
        competition.delta_broadcasted_at is Some,
        delta_choice(competition, current_height, outcome_height, entries) == Ok::<
            DeltaChoice,
            SettlementError,
        >(choice),
        0 <= at < delta_steps_of(choice).len(),
    ensures
        !settles(delta_steps_of(choice)[at]),
{
    match choice {
        DeltaChoice::Split(split_with, closed) => {
            if at < share_closes(closed).len() {
                share_closes_settle_nothing(closed, at);
            }
        },
        _ => {},
    }
}

/// Closing a share settles no outcome.
proof fn share_closes_settle_nothing(winners: Seq<Winner>, at: int)
    requires
        0 <= at < share_closes(winners).len(),
    ensures
        !settles(share_closes(winners)[at]),
    decreases winners.len(),
{
    if winners.len() > 0 && at < share_closes(winners.drop_last()).len() {
        share_closes_settle_nothing(winners.drop_last(), at);
    }
}

/// A run over the first steps, one after the other, took the competition through this history.
pub open spec fn ran(
    history: Seq<Competition>,
    steps: Seq<SettlementStepView>,
    times: Seq<Timestamp>,
) -> bool {
    &&& 0 < history.len() <= steps.len() + 1
    &&& forall|i: int|
        0 <= i < history.len() - 1 ==> records(
            #[trigger] history[i],
            history[i + 1],
            steps[i],
            times[i],
        )
}

/// Closing or splitting an outcome does not complete the competition.
proof fn delta_steps_complete_nothing(choice: DeltaChoice, at: int)
    requires
        0 <= at < delta_steps_of(choice).len(),
    ensures
        !(delta_steps_of(choice)[at] is FinishReclaims),
{
    match choice {
        DeltaChoice::Split(split_with, closed) => {
            let offset: int = if split_with is Some {
                1
            } else {
                0
            };
            if offset <= at < offset + share_closes(closed).len() {
                assert(delta_steps_of(choice)[at] == share_closes(closed)[at - offset]);
                share_closes_close(closed, at - offset);
            }
        },
        _ => {},
    }
}

/// The steps of closing shares close them and record it.
proof fn share_closes_close(winners: Seq<Winner>, at: int)
    requires
        0 <= at < share_closes(winners).len(),
    ensures
        share_closes(winners)[at] is CloseShare || share_closes(winners)[at] is MarkClosed,
    decreases winners.len(),
{
    if winners.len() > 0 && at < share_closes(winners.drop_last()).len() {
        share_closes_close(winners.drop_last(), at);
    }
}

/// The steps of reclaiming shares reclaim them and record it.
proof fn share_reclaims_reclaim(winners: Seq<Winner>, at: int)
    requires
        0 <= at < share_reclaims(winners).len(),
    ensures
        share_reclaims(winners)[at] is ReclaimShare || share_reclaims(winners)[at] is MarkReclaimed,
    decreases winners.len(),
{
    if winners.len() > 0 && at < share_reclaims(winners.drop_last()).len() {
        share_reclaims_reclaim(winners.drop_last(), at);
    }
}

/// However far closing or splitting an outcome comes, it records in the competition only that the
/// outcome was closed or split, and forgets that never.
pub proof fn a_settlement_records_its_publication(
    choice: DeltaChoice,
    history: Seq<Competition>,
    times: Seq<Timestamp>,
)
    requires
        ran(history, delta_steps_of(choice), times),
    ensures
        history.last() == (Competition {
            delta_broadcasted_at: history.last().delta_broadcasted_at,
            errors: history.last().errors,
            ..history[0]
        }),
        history[0].delta_broadcasted_at is Some ==> history.last().delta_broadcasted_at is Some,
    decreases history.len(),
{
    if history.len() > 1 {
        let earlier = history.drop_last();
        assert forall|i: int| 0 <= i < earlier.len() - 1 implies records(
            #[trigger] earlier[i],
            earlier[i + 1],
            delta_steps_of(choice)[i],
            times[i],
        ) by {
            assert(records(history[i], history[i + 1], delta_steps_of(choice)[i], times[i]));
        }
        a_settlement_records_its_publication(choice, earlier, times);
        let at = history.len() - 2;
        delta_steps_complete_nothing(choice, at);
        assert(records(history[at], history[at + 1], delta_steps_of(choice)[at], times[at]));
    }
}

/// Reclaiming what nobody claimed records in the competition only that it is completed, and that in
/// its last step: a run that stops before leaves the competition as it was.
pub proof fn reclaims_complete_last(
    choice: ReclaimChoice,
    history: Seq<Competition>,
    times: Seq<Timestamp>,
)
    requires
        ran(history, reclaim_steps_of(choice), times),
    ensures
        history.last() == (Competition {
            completed_at: history.last().completed_at,
            errors: history.last().errors,
            ..history[0]
        }),
        history.len() <= reclaim_steps_of(choice).len() ==> history.last() == history[0],
        choice is Reclaim && history.len() == reclaim_steps_of(choice).len() + 1
            ==> history.last().completed_at is Some && history.last().errors@.len() == 0,
    decreases history.len(),
{
    if history.len() > 1 {
        let steps = reclaim_steps_of(choice);
        let earlier = history.drop_last();
        assert forall|i: int| 0 <= i < earlier.len() - 1 implies records(
            #[trigger] earlier[i],
            earlier[i + 1],
            steps[i],
            times[i],
        ) by {
            assert(records(history[i], history[i + 1], steps[i], times[i]));
        }
        reclaims_complete_last(choice, earlier, times);
        let at = history.len() - 2;
        assert(records(history[at], history[at + 1], steps[at], times[at]));
        if let ReclaimChoice::Reclaim(winners) = choice {
            if at < share_reclaims(winners).len() {
                assert(steps[at] == share_reclaims(winners)[at]);
                share_reclaims_reclaim(winners, at);
            }
        }
    }
}

} // verus!
