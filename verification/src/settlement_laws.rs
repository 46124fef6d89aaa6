//! What holds of every settlement.

use crate::competition::Competition;
use crate::contract::{Outcome, Player};
use crate::encoding::{point_of_hex, public_point};
use crate::entries::UserEntry;
use crate::settlement::{
    ascending_keys, current_outcome, delta_choice, delta_of, depth, entry_of, first_with_entry,
    keys_ascend_one_way, paid_winners, plays, reclaim_choice, sold_back, unclaimed_winners,
    unlocked, winner_at, winners_of, DeltaChoice, ReclaimChoice, SettlementError, Winner,
};
use vstd::prelude::*;

verus! {

/// Nothing is broadcast after an outcome transaction before its relative timelock is over, and
/// nothing is split before it has passed twice.
pub proof fn timelocks_are_kept(
    competition: Competition,
    current_height: u32,
    outcome_height: Option<u32>,
    entries: Seq<UserEntry>,
    choice: DeltaChoice,
)
    requires
        delta_choice(competition, current_height, outcome_height, entries) == Ok::<
            DeltaChoice,
            SettlementError,
        >(choice),
    ensures
        choice is Close || choice is Split ==> competition.signed_contract is Some
            && outcome_height is Some && current_height - outcome_height->0 >= (
        competition.signed_contract->0).params.relative_locktime_block_delta,
        choice is Split ==> current_height - outcome_height->0 >= 2 * (
        competition.signed_contract->0).params.relative_locktime_block_delta,
{
}

/// Nothing is reclaimed before the relative timelock has passed twice.
pub proof fn reclaims_wait_twice(
    competition: Competition,
    current_height: u32,
    outcome_height: Option<u32>,
    entries: Seq<UserEntry>,
    choice: ReclaimChoice,
)
    requires
        reclaim_choice(competition, current_height, outcome_height, entries) == Ok::<
            ReclaimChoice,
            SettlementError,
        >(choice),
        choice is Reclaim,
    ensures
        competition.signed_contract is Some,
        outcome_height is Some,
        current_height - outcome_height->0 >= 2 * (
        competition.signed_contract->0).params.relative_locktime_block_delta,
{
}

/// Nobody is reclaimed from who was paid, or whose share was closed or reclaimed before.
pub proof fn paid_winners_are_never_reclaimed_from(
    entries: Seq<UserEntry>,
    players: Seq<Player>,
    winners: Seq<usize>,
    i: int,
)
    requires
        0 <= i < unclaimed_winners(entries, players, winners).len(),
    ensures
        ({
            let winner = unclaimed_winners(entries, players, winners)[i];
            let entry = entries[winner.entry_index as int];
            &&& entry_of(entries, players, winner.player_index, 0) == Some(winner.entry_index)
            &&& winners.contains(winner.player_index)
            &&& entry.paid_out_at is None
            &&& entry.sellback_broadcasted_at is None
            &&& entry.reclaimed_broadcasted_at is None
        }),
    decreases winners.len(),
{
    let earlier = unclaimed_winners(entries, players, winners.drop_last());
    if i < earlier.len() {
        paid_winners_are_never_reclaimed_from(entries, players, winners.drop_last(), i);
        let player = earlier[i].player_index;
        let at = choose|at: int|
            0 <= at < winners.drop_last().len() && winners.drop_last()[at] == player;
        assert(winners[at] == player);
    } else {
        assert(winners[winners.len() - 1] == winners.last());
    }
}

/// A share is closed only of a winner who was paid and gave up their key, and whose share was not
/// closed before.
pub proof fn only_paid_winners_are_closed(
    entries: Seq<UserEntry>,
    players: Seq<Player>,
    winners: Seq<usize>,
    i: int,
)
    requires
        0 <= i < paid_winners(entries, players, winners).len(),
    ensures
        ({
            let winner = paid_winners(entries, players, winners)[i];
            &&& entry_of(entries, players, winner.player_index, 0) == Some(winner.entry_index)
            &&& winners.contains(winner.player_index)
            &&& sold_back(entries[winner.entry_index as int])
        }),
    decreases winners.len(),
{
    let earlier = paid_winners(entries, players, winners.drop_last());
    if i < earlier.len() {
        only_paid_winners_are_closed(entries, players, winners.drop_last(), i);
        let player = earlier[i].player_index;
        let at = choose|at: int|
            0 <= at < winners.drop_last().len() && winners.drop_last()[at] == player;
        assert(winners[at] == player);
    } else {
        assert(winners[winners.len() - 1] == winners.last());
    }
}

/// The players below `upto` that an outcome pays, the lowest first.
spec fn keys_below(weights: Map<usize, u64>, upto: int) -> Seq<usize>
    decreases upto,
{
    if upto <= 0 {
        Seq::empty()
    } else if weights.contains_key((upto - 1) as usize) {
        keys_below(weights, upto - 1).push((upto - 1) as usize)
    } else {
        keys_below(weights, upto - 1)
    }
}

/// The players below `upto` ascend.
proof fn keys_below_ascend(weights: Map<usize, u64>, upto: int)
    requires
        0 <= upto <= usize::MAX + 1,
    ensures
        forall|i: int| 0 <= i < keys_below(weights, upto).len() ==> (#[trigger] keys_below(
            weights,
            upto,
        )[i]) < upto && weights.contains_key(keys_below(weights, upto)[i]),
        forall|i: int, j: int|
            0 <= i < j < keys_below(weights, upto).len() ==> (#[trigger] keys_below(weights, upto)[i])
                < (#[trigger] keys_below(weights, upto)[j]),
        forall|p: usize|
            p < upto && #[trigger] weights.contains_key(p) ==> keys_below(weights, upto).contains(p),
    decreases upto,
{
    if upto > 0 {
        keys_below_ascend(weights, upto - 1);
        let fewer = keys_below(weights, upto - 1);
        let more = keys_below(weights, upto);
        assert forall|p: usize| p < upto && #[trigger] weights.contains_key(p) implies more.contains(
            p,
        ) by {
            if p < upto - 1 {
                assert(fewer.contains(p));
                let i = choose|i: int| 0 <= i < fewer.len() && fewer[i] == p;
                assert(more[i] == p);
            } else {
                assert(more[fewer.len() as int] == p);
            }
        }
    }
}

/// The winners of an outcome are those whom it pays, the lowest first.
pub proof fn winners_are_those_who_are_paid(weights: Map<usize, u64>)
    ensures
        forall|p: usize| #[trigger] weights.contains_key(p) <==> winners_of(weights).contains(p),
        forall|i: int, j: int|
            0 <= i < j < winners_of(weights).len() ==> (#[trigger] winners_of(weights)[i]) < (
            #[trigger] winners_of(weights)[j]),
{
    let keys = keys_below(weights, usize::MAX + 1);
    keys_below_ascend(weights, usize::MAX + 1);
    assert forall|p: usize| keys.contains(p) <==> #[trigger] weights.contains_key(p) by {
        if keys.contains(p) {
            let i = choose|i: int| 0 <= i < keys.len() && keys[i] == p;
            assert(weights.contains_key(keys[i]));
        }
    }
    assert(ascending_keys(keys, weights));
    keys_ascend_one_way(keys, weights);
}

/// Whom a winner names played with the key of the player, in the first entry that did; it is this
/// entry and its ticket that are named.
pub open spec fn names_entry(winner: Winner, entries: Seq<UserEntry>, players: Seq<Player>) -> bool {
    let at = winner.entry_index as int;
    &&& at < entries.len()
    &&& winner.player_index < players.len()
    &&& winner.entry_id == entries[at].id
    &&& winner.ticket_id == entries[at].ticket_id
    &&& point_of_hex(entries[at].ephemeral_pubkey@) == Some(
        players[winner.player_index as int].pubkey@,
    )
    &&& forall|other: int|
        0 <= other < at ==> point_of_hex((#[trigger] entries[other]).ephemeral_pubkey@) != Some(
            players[winner.player_index as int].pubkey@,
        )
}

/// The first entry of a player was made with the player's key, and no earlier one was.
proof fn entry_of_is_first(
    entries: Seq<UserEntry>,
    players: Seq<Player>,
    player_index: usize,
    from: int,
)
    requires
        0 <= from <= entries.len() <= usize::MAX,
        player_index < players.len() ==> forall|other: int|
            0 <= other < from ==> point_of_hex((#[trigger] entries[other]).ephemeral_pubkey@)
                != Some(players[player_index as int].pubkey@),
    ensures
        entry_of(entries, players, player_index, from) matches Some(at) ==> names_entry(
            winner_at(entries, player_index, at),
            entries,
            players,
        ),
        entry_of(entries, players, player_index, from) is None && player_index < players.len()
            ==> forall|other: int|
            0 <= other < entries.len() ==> point_of_hex(
                (#[trigger] entries[other]).ephemeral_pubkey@,
            ) != Some(players[player_index as int].pubkey@),
    decreases entries.len() - from,
{
    if from < entries.len() && !plays(entries[from], players, player_index) {
        entry_of_is_first(entries, players, player_index, from + 1);
    }
}

/// A winner whose first entry was paid over Lightning, who gave up their key, and whose share was
/// not closed yet.
pub open spec fn gave_up_share(winner: Winner, entries: Seq<UserEntry>) -> bool {
    let entry = entries[winner.entry_index as int];
    &&& entry.paid_out_at is Some
    &&& entry.ephemeral_privatekey is Some
    &&& entry.sellback_broadcasted_at is None
}

/// Those who are closed are exactly the winners who were paid and gave up their key, in ascending
/// order.
proof fn paid_are_exactly(entries: Seq<UserEntry>, players: Seq<Player>, winners: Seq<usize>)
    requires
        entries.len() <= usize::MAX,
        forall|i: int, j: int|
            0 <= i < j < winners.len() ==> (#[trigger] winners[i]) < (#[trigger] winners[j]),
    ensures
        ({
            let paid = paid_winners(entries, players, winners);
            &&& paid.len() <= winners.len()
            &&& forall|i: int|
                0 <= i < paid.len() ==> winners.contains((#[trigger] paid[i]).player_index)
                    && names_entry(paid[i], entries, players) && gave_up_share(paid[i], entries)
            &&& forall|i: int, j: int|
                0 <= i < j < paid.len() ==> (#[trigger] paid[i]).player_index < (
                #[trigger] paid[j]).player_index
            &&& forall|winner: Winner|
                winners.contains(winner.player_index) && #[trigger] names_entry(
                    winner,
                    entries,
                    players,
                ) && gave_up_share(winner, entries) ==> paid.contains(winner)
            &&& paid.len() == winners.len() ==> forall|i: int|
                0 <= i < winners.len() ==> (#[trigger] paid[i]).player_index == winners[i]
        }),
    decreases winners.len(),
{
    if winners.len() > 0 {
        let fewer = winners.drop_last();
        let earlier = paid_winners(entries, players, fewer);
        let paid = paid_winners(entries, players, winners);
        paid_are_exactly(entries, players, fewer);
        entry_of_is_first(entries, players, winners.last(), 0);
        assert(winners[winners.len() - 1] == winners.last());
        assert forall|i: int| 0 <= i < paid.len() implies winners.contains(
            (#[trigger] paid[i]).player_index,
        ) && names_entry(paid[i], entries, players) && gave_up_share(paid[i], entries) by {
            if i < earlier.len() {
                assert(paid[i] == earlier[i]);
                let at = choose|at: int|
                    0 <= at < fewer.len() && fewer[at] == earlier[i].player_index;
                assert(winners[at] == paid[i].player_index);
            }
        }
        assert forall|i: int, j: int| 0 <= i < j < paid.len() implies (
        #[trigger] paid[i]).player_index < (#[trigger] paid[j]).player_index by {
            assert(paid[i] == earlier[i]);
            let at = choose|at: int| 0 <= at < fewer.len() && fewer[at] == earlier[i].player_index;
            assert(winners[at] < winners[winners.len() - 1]);
        }
        assert forall|winner: Winner|
            winners.contains(winner.player_index) && #[trigger] names_entry(
                winner,
                entries,
                players,
            ) && gave_up_share(winner, entries) implies paid.contains(winner) by {
            let at = choose|at: int| 0 <= at < winners.len() && winners[at] == winner.player_index;
            if at < winners.len() - 1 {
                assert(fewer[at] == winner.player_index);
                assert(fewer.contains(winner.player_index));
                assert(earlier.contains(winner));
                let i = choose|i: int| 0 <= i < earlier.len() && earlier[i] == winner;
                assert(paid[i] == winner);
            } else {
                same_entry(entries, players, winner);
                assert(paid[earlier.len() as int] == winner);
            }
        }
        if paid.len() == winners.len() {
            assert forall|i: int| 0 <= i < winners.len() implies (#[trigger] paid[i]).player_index
                == winners[i] by {
                if i < earlier.len() {
                    assert(paid[i] == earlier[i]);
                    assert(fewer[i] == winners[i]);
                }
            }
        }
    }
}

/// A winner names the entry that is found for them.
proof fn same_entry(entries: Seq<UserEntry>, players: Seq<Player>, winner: Winner)
    requires
        entries.len() <= usize::MAX,
        names_entry(winner, entries, players),
    ensures
        entry_of(entries, players, winner.player_index, 0) == Some(winner.entry_index),
        winner == winner_at(entries, winner.player_index, winner.entry_index),
{
    entry_of_is_first(entries, players, winner.player_index, 0);
    let at = winner.entry_index as int;
    match entry_of(entries, players, winner.player_index, 0) {
        None => {
            assert(point_of_hex(entries[at].ephemeral_pubkey@) != Some(
                players[winner.player_index as int].pubkey@,
            ));
        },
        Some(found) => {
            if found < at {
                assert(point_of_hex(entries[found as int].ephemeral_pubkey@) != Some(
                    players[winner.player_index as int].pubkey@,
                ));
            } else if at < found {
                assert(point_of_hex(entries[at].ephemeral_pubkey@) != Some(
                    players[winner.player_index as int].pubkey@,
                ));
            }
        },
    }
}

/// Every player whom the outcome pays was paid over Lightning and gave up their key, in the first
/// entry that was made with their key, and none of these shares was closed yet.
pub open spec fn all_gave_up(
    entries: Seq<UserEntry>,
    players: Seq<Player>,
    weights: Map<usize, u64>,
) -> bool {
    forall|p: usize| #[trigger]
        weights.contains_key(p) ==> exists|winner: Winner|
            winner.player_index == p && #[trigger] names_entry(winner, entries, players)
                && gave_up_share(winner, entries)
}

/// Once the relative timelock of a decided contract is over, its whole outcome is closed exactly if
/// every player whom it pays was paid and gave up their key. All of them are then named, each with
/// the first entry that was made with their key. Until the timelock has passed twice, the missing
/// blocks are waited for otherwise; after that the outcome is split, and the shares of exactly
/// those who gave them up are closed. Nothing is broadcast a second time, and what the split is
/// made with is the entry of a player whom the outcome pays, of one who was paid if there is one.
pub proof fn only_what_everyone_gave_up_is_closed_whole(
    competition: Competition,
    current_height: u32,
    outcome_height: u32,
    entries: Seq<UserEntry>,
    outcome: Outcome,
    weights: Map<usize, u64>,
)
    requires
        entries.len() <= usize::MAX,
        competition.signed_contract is Some,
        competition.outcome_broadcasted_at is Some,
        competition.outcome_transaction is Some,
        current_outcome(competition) == Ok::<Outcome, SettlementError>(outcome),
        (competition.signed_contract->0).params.outcome_payouts.weights(outcome) == Some(weights),
        current_height - outcome_height >= (
        competition.signed_contract->0).params.relative_locktime_block_delta,
    ensures
        ({
            let params = (competition.signed_contract->0).params;
            let players = params.players@;
            let passed = current_height - outcome_height;
            let twice = 2 * params.relative_locktime_block_delta;
            let choice = delta_choice(competition, current_height, Some(outcome_height), entries);
            if all_gave_up(entries, players, weights) {
                choice matches Ok(DeltaChoice::Close(broadcast, named)) && {
                    &&& broadcast == (competition.delta_broadcasted_at is None)
                    &&& names_all(named, entries, players, weights)
                    &&& forall|p: usize| #[trigger]
                        weights.contains_key(p) ==> exists|i: int|
                            0 <= i < named.len() && (#[trigger] named[i]).player_index == p
                }
            } else if passed < twice {
                choice matches Ok(DeltaChoice::Wait(missing)) && missing == twice - passed
            } else {
                match choice {
                    Ok(DeltaChoice::Split(split_with, closes)) => {
                        &&& names_all(closes, entries, players, weights)
                        &&& split_with is Some == (competition.delta_broadcasted_at is None)
                        &&& split_with is Some && closes.len() > 0 ==> split_with->0 == closes[0]
                        &&& split_with matches Some(winner) ==> weights.contains_key(
                            winner.player_index,
                        ) && names_entry(winner, entries, players)
                    },
                    Err(error) => {
                        &&& error is NoWinnerEntry
                        &&& competition.delta_broadcasted_at is None
                        &&& forall|winner: Winner|
                            weights.contains_key(winner.player_index) ==> !#[trigger] names_entry(
                                winner,
                                entries,
                                players,
                            )
                    },
                    _ => false,
                }
            }
        }),
{
    let params = (competition.signed_contract->0).params;
    let players = params.players@;
    let winners = winners_of(weights);
    let paid = paid_winners(entries, players, winners);
    winners_are_those_who_are_paid(weights);
    paid_are_exactly(entries, players, winners);
    all_or_not_all_gave_up(entries, players, weights);
    assert(names_all(paid, entries, players, weights));
    first_of_those_with_entries(entries, players, winners, 0);
    if paid.len() == winners.len() {
        assert forall|p: usize| #[trigger] weights.contains_key(p) implies exists|i: int|
            0 <= i < paid.len() && (#[trigger] paid[i]).player_index == p by {
            let i = choose|i: int| 0 <= i < winners.len() && winners[i] == p;
            assert(paid[i].player_index == p);
        }
    }
    if paid.len() > 0 {
        assert(winners.contains(paid[0].player_index));
    }
    match first_with_entry(entries, players, winners, 0) {
        Some(winner) => {
            assert(winners.contains(winner.player_index));
        },
        None => {
            assert forall|winner: Winner|
                weights.contains_key(winner.player_index) implies !#[trigger] names_entry(
                winner,
                entries,
                players,
            ) by {
                let i = choose|i: int|
                    0 <= i < winners.len() && winners[i] == winner.player_index;
                assert(winners[i] == winner.player_index);
            }
        },
    }
    let choice = delta_choice(competition, current_height, Some(outcome_height), entries);
    assert(choice == delta_of(
        params,
        weights,
        entries,
        competition.delta_broadcasted_at is Some,
        (current_height - outcome_height) as u32,
    ));
    if paid.len() == winners.len() {
        assert(choice == Ok::<DeltaChoice, SettlementError>(
            DeltaChoice::Close(competition.delta_broadcasted_at is None, paid),
        ));
    } else {
        assert(!all_gave_up(entries, players, weights));
    }
}

/// Exactly those whom the outcome pays and who gave up their share, each with their first entry, in
/// ascending order.
pub open spec fn names_all(
    named: Seq<Winner>,
    entries: Seq<UserEntry>,
    players: Seq<Player>,
    weights: Map<usize, u64>,
) -> bool {
    &&& forall|i: int|
        0 <= i < named.len() ==> weights.contains_key((#[trigger] named[i]).player_index)
            && names_entry(named[i], entries, players) && gave_up_share(named[i], entries)
    &&& forall|i: int, j: int|
        0 <= i < j < named.len() ==> (#[trigger] named[i]).player_index < (
        #[trigger] named[j]).player_index
    &&& forall|winner: Winner|
        weights.contains_key(winner.player_index) && #[trigger] names_entry(
            winner,
            entries,
            players,
        ) && gave_up_share(winner, entries) ==> named.contains(winner)
}

/// As many gave up their shares as are paid exactly if all did.
proof fn all_or_not_all_gave_up(
    entries: Seq<UserEntry>,
    players: Seq<Player>,
    weights: Map<usize, u64>,
)
    requires
        entries.len() <= usize::MAX,
    ensures
        all_gave_up(entries, players, weights) == (paid_winners(
            entries,
            players,
            winners_of(weights),
        ).len() == winners_of(weights).len()),
{
    let winners = winners_of(weights);
    let paid = paid_winners(entries, players, winners);
    winners_are_those_who_are_paid(weights);
    paid_are_exactly(entries, players, winners);
    if paid.len() == winners.len() {
        assert forall|p: usize| #[trigger] weights.contains_key(p) implies exists|winner: Winner|
            winner.player_index == p && #[trigger] names_entry(winner, entries, players)
                && gave_up_share(winner, entries) by {
            let i = choose|i: int| 0 <= i < winners.len() && winners[i] == p;
            assert(paid[i].player_index == p);
            assert(names_entry(paid[i], entries, players));
        }
    }
    if all_gave_up(entries, players, weights) {
        assert forall|i: int| 0 <= i < winners.len() implies {
            &&& entry_of(entries, players, #[trigger] winners[i], 0) matches Some(at)
            &&& sold_back(entries[at as int])
        } by {
            assert(winners.contains(winners[i]));
            assert(weights.contains_key(winners[i]));
            let winner = choose|winner: Winner|
                winner.player_index == winners[i] && #[trigger] names_entry(
                    winner,
                    entries,
                    players,
                ) && gave_up_share(winner, entries);
            same_entry(entries, players, winner);
        }
        all_are_paid(entries, players, winners);
    }
}

/// Where everyone gave up their share, as many did as win.
proof fn all_are_paid(entries: Seq<UserEntry>, players: Seq<Player>, winners: Seq<usize>)
    requires
        forall|i: int|
            0 <= i < winners.len() ==> {
                &&& entry_of(entries, players, #[trigger] winners[i], 0) matches Some(at)
                &&& sold_back(entries[at as int])
            },
    ensures
        paid_winners(entries, players, winners).len() == winners.len(),
    decreases winners.len(),
{
    if winners.len() > 0 {
        let fewer = winners.drop_last();
        assert forall|i: int| 0 <= i < fewer.len() implies {
            &&& entry_of(entries, players, #[trigger] fewer[i], 0) matches Some(at)
            &&& sold_back(entries[at as int])
        } by {
            assert(fewer[i] == winners[i]);
        }
        all_are_paid(entries, players, fewer);
        assert(winners[winners.len() - 1] == winners.last());
    }
}

/// The first winner with an entry is one of the winners, and without one none of them has an entry.
proof fn first_of_those_with_entries(
    entries: Seq<UserEntry>,
    players: Seq<Player>,
    winners: Seq<usize>,
    from: int,
)
    requires
        0 <= from <= winners.len(),
        entries.len() <= usize::MAX,
    ensures
        first_with_entry(entries, players, winners, from) matches Some(winner) ==> winners.contains(
            winner.player_index,
        ) && names_entry(winner, entries, players),
        first_with_entry(entries, players, winners, from) is None ==> forall|winner: Winner| #[trigger]
            names_entry(winner, entries, players) ==> forall|i: int|
                from <= i < winners.len() ==> #[trigger] winners[i] != winner.player_index,
    decreases winners.len() - from,
{
    if from < winners.len() {
        entry_of_is_first(entries, players, winners[from], 0);
        if entry_of(entries, players, winners[from], 0) is None {
            first_of_those_with_entries(entries, players, winners, from + 1);
            assert forall|winner: Winner| #[trigger]
                names_entry(winner, entries, players) implies winners[from]
                != winner.player_index by {
                same_entry(entries, players, winner);
            }
        }
    }
}

/// Those from whom is reclaimed are exactly the winners whose first entry was neither paid nor
/// closed nor reclaimed from, in ascending order.
proof fn unclaimed_are_exactly(entries: Seq<UserEntry>, players: Seq<Player>, winners: Seq<usize>)
    requires
        entries.len() <= usize::MAX,
        forall|i: int, j: int|
            0 <= i < j < winners.len() ==> (#[trigger] winners[i]) < (#[trigger] winners[j]),
    ensures
        ({
            let unclaimed = unclaimed_winners(entries, players, winners);
            &&& forall|i: int|
                0 <= i < unclaimed.len() ==> winners.contains(
                    (#[trigger] unclaimed[i]).player_index,
                ) && names_entry(unclaimed[i], entries, players) && left_share(
                    unclaimed[i],
                    entries,
                )
            &&& forall|i: int, j: int|
                0 <= i < j < unclaimed.len() ==> (#[trigger] unclaimed[i]).player_index < (
                #[trigger] unclaimed[j]).player_index
            &&& forall|winner: Winner|
                winners.contains(winner.player_index) && #[trigger] names_entry(
                    winner,
                    entries,
                    players,
                ) && left_share(winner, entries) ==> unclaimed.contains(winner)
        }),
    decreases winners.len(),
{
    if winners.len() > 0 {
        let fewer = winners.drop_last();
        let earlier = unclaimed_winners(entries, players, fewer);
        let unclaimed = unclaimed_winners(entries, players, winners);
        unclaimed_are_exactly(entries, players, fewer);
        entry_of_is_first(entries, players, winners.last(), 0);
        assert(winners[winners.len() - 1] == winners.last());
        assert forall|i: int| 0 <= i < unclaimed.len() implies winners.contains(
            (#[trigger] unclaimed[i]).player_index,
        ) && names_entry(unclaimed[i], entries, players) && left_share(unclaimed[i], entries) by {
            if i < earlier.len() {
                assert(unclaimed[i] == earlier[i]);
                let at = choose|at: int|
                    0 <= at < fewer.len() && fewer[at] == earlier[i].player_index;
                assert(winners[at] == unclaimed[i].player_index);
            }
        }
        assert forall|i: int, j: int| 0 <= i < j < unclaimed.len() implies (
        #[trigger] unclaimed[i]).player_index < (#[trigger] unclaimed[j]).player_index by {
            assert(unclaimed[i] == earlier[i]);
            let at = choose|at: int| 0 <= at < fewer.len() && fewer[at] == earlier[i].player_index;
            assert(winners[at] < winners[winners.len() - 1]);
        }
        assert forall|winner: Winner|
            winners.contains(winner.player_index) && #[trigger] names_entry(
                winner,
                entries,
                players,
            ) && left_share(winner, entries) implies unclaimed.contains(winner) by {
            let at = choose|at: int| 0 <= at < winners.len() && winners[at] == winner.player_index;
            if at < winners.len() - 1 {
                assert(fewer[at] == winner.player_index);
                assert(fewer.contains(winner.player_index));
                assert(earlier.contains(winner));
                let i = choose|i: int| 0 <= i < earlier.len() && earlier[i] == winner;
                assert(unclaimed[i] == winner);
            } else {
                same_entry(entries, players, winner);
                assert(unclaimed[earlier.len() as int] == winner);
            }
        }
    }
}

/// A winner whose first entry was neither paid nor closed nor reclaimed from.
pub open spec fn left_share(winner: Winner, entries: Seq<UserEntry>) -> bool {
    let entry = entries[winner.entry_index as int];
    &&& entry.paid_out_at is None
    &&& entry.sellback_broadcasted_at is None
    &&& entry.reclaimed_broadcasted_at is None
}

/// Once the relative timelock of a decided contract has passed twice, exactly those shares are
/// reclaimed whose players were neither paid nor closed nor reclaimed from.
pub proof fn exactly_what_is_left_is_reclaimed(
    competition: Competition,
    current_height: u32,
    outcome_height: u32,
    entries: Seq<UserEntry>,
    outcome: Outcome,
    weights: Map<usize, u64>,
)
    requires
        entries.len() <= usize::MAX,
        competition.signed_contract is Some,
        competition.outcome_broadcasted_at is Some,
        competition.outcome_transaction is Some,
        current_outcome(competition) == Ok::<Outcome, SettlementError>(outcome),
        (competition.signed_contract->0).params.outcome_payouts.weights(outcome) == Some(weights),
        current_height >= outcome_height,
    ensures
        ({
            let params = (competition.signed_contract->0).params;
            let players = params.players@;
            let passed = current_height - outcome_height;
            let twice = 2 * params.relative_locktime_block_delta;
            let choice = reclaim_choice(competition, current_height, Some(outcome_height), entries);
            if passed < twice {
                choice matches Ok(ReclaimChoice::Wait(missing)) && missing == twice - passed
            } else {
                choice matches Ok(ReclaimChoice::Reclaim(named)) && {
                    &&& forall|i: int|
                        0 <= i < named.len() ==> weights.contains_key(
                            (#[trigger] named[i]).player_index,
                        ) && names_entry(named[i], entries, players) && left_share(
                            named[i],
                            entries,
                        )
                    &&& forall|i: int, j: int|
                        0 <= i < j < named.len() ==> (#[trigger] named[i]).player_index < (
                        #[trigger] named[j]).player_index
                    &&& forall|winner: Winner|
                        weights.contains_key(winner.player_index) && #[trigger] names_entry(
                            winner,
                            entries,
                            players,
                        ) && left_share(winner, entries) ==> named.contains(winner)
                }
            }
        }),
{
    winners_are_those_who_are_paid(weights);
    unclaimed_are_exactly(
        entries,
        (competition.signed_contract->0).params.players@,
        winners_of(weights),
    );
}

/// What an attestation decides is the first announced outcome whose locking point is the
/// attestation's, and nothing is decided by one that unlocks none. Without an attestation only the
/// broadcast of the expiry decides.
pub proof fn attestations_decide(competition: Competition)
    ensures
        match current_outcome(competition) {
            Ok(Outcome::Attestation(index)) => {
                &&& competition.attestation is Some
                &&& competition.event_announcement is Some
                &&& index < (competition.event_announcement->0).locking_points@.len()
                &&& public_point((competition.attestation->0)@) == Some(
                    (competition.event_announcement->0).locking_points@[index as int]@,
                )
                &&& forall|other: int|
                    0 <= other < index ==> public_point((competition.attestation->0)@) != Some(
                        (#[trigger] (competition.event_announcement->0).locking_points@[other])@,
                    )
            },
            Ok(Outcome::Expiry) => competition.attestation is None
                && competition.expiry_broadcasted_at is Some,
            Err(error) => {
                &&& competition.attestation is None ==> competition.expiry_broadcasted_at is None
                    && error is NoAttestation
                &&& competition.attestation is Some && competition.event_announcement is None
                    ==> error is NoAnnouncement
                &&& competition.attestation is Some && competition.event_announcement is Some
                    ==> error is UnknownOutcome && forall|other: int|
                    0 <= other < (competition.event_announcement->0).locking_points@.len()
                        ==> public_point((competition.attestation->0)@) != Some(
                        (#[trigger] (competition.event_announcement->0).locking_points@[other])@,
                    )
            },
        },
{
    if competition.attestation is Some && competition.event_announcement is Some {
        let points = (competition.event_announcement->0).locking_points;
        assert(points@.len() == points.len());
        if let Some(point) = public_point((competition.attestation->0)@) {
            unlocked_is_first(points@, point, 0);
        }
    }
}

/// The first outcome that a point unlocks has it, and no earlier one has.
proof fn unlocked_is_first(points: Seq<Vec<u8>>, point: Seq<u8>, from: int)
    requires
        0 <= from <= points.len() <= usize::MAX,
        forall|other: int| 0 <= other < from ==> (#[trigger] points[other])@ != point,
    ensures
        unlocked(points, point, from) matches Some(index) ==> index < points.len()
            && points[index as int]@ == point && forall|other: int|
            0 <= other < index ==> (#[trigger] points[other])@ != point,
        unlocked(points, point, from) is None ==> forall|other: int|
            0 <= other < points.len() ==> (#[trigger] points[other])@ != point,
    decreases points.len() - from,
{
    if from < points.len() && points[from]@ != point {
        unlocked_is_first(points, point, from + 1);
    }
}

/// A transaction has its first confirmation in the block that holds it, and one more with each
/// block that follows. One that the tip has not reached has none.
pub proof fn confirmations_count_from_inclusion(tip: u32, height: u32)
    ensures
        tip < height ==> depth(tip as nat, height as nat) == 0,
        depth(height as nat, height as nat) == 1,
        height <= tip && tip - height + 2 <= u32::MAX ==> depth((tip + 1) as nat, height as nat)
            == depth(tip as nat, height as nat) + 1,
{
}

} // verus!
