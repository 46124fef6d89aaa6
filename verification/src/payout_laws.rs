//! What holds of every way to share the pot.

use crate::contract::{OutcomePayouts, Player};
use crate::encoding::point_of_hex;
use crate::entries::{sorts_by_ticket, UserEntry};
use crate::payouts::{
    are_payouts, cannot_be_paid, equal_share, first_player, is_payouts, is_slot_payouts,
    outcome_weights, percentages, placed, player_of, players_of, share_of, slot_weights,
    total_weight, total_with, winning_keys, KeyFault, OutcomeFault, PayoutsError,
};
use crate::rankings::{
    all_rankings, everyone, is_ranking, possible_outcomes, rankings_can_be_listed, ranks_before,
};
use crate::sellback::weighed_share;
use vstd::prelude::*;

verus! {

/// A hundred in equal shares, of the first `upto` players.
spec fn first_shares(players: nat, upto: int) -> Map<usize, u64> {
    Map::new(|p: usize| p < upto, |p: usize| share_of(players, p as nat))
}

/// What the first `upto` equal shares sum to.
proof fn first_shares_sum(players: nat, upto: nat)
    requires
        0 < players <= usize::MAX,
        upto <= players,
    ensures
        first_shares(players, upto as int).dom().finite(),
        total_weight(first_shares(players, upto as int)) == upto * (100nat / players) + (if upto
            < 100nat % players {
            upto
        } else {
            100nat % players
        }),
    decreases upto,
{
    let shares = first_shares(players, upto as int);
    if upto == 0 {
        assert(shares =~= Map::empty());
        assert(shares.dom() =~= Set::empty());
    } else {
        let fewer = first_shares(players, upto - 1);
        first_shares_sum(players, (upto - 1) as nat);
        let last = (upto - 1) as usize;
        let weight = share_of(players, (upto - 1) as nat);
        assert(shares =~= fewer.insert(last, weight));
        total_with(fewer, last, weight);
        let base = 100nat / players;
        assert(base <= 100) by (nonlinear_arith)
            requires
                base == 100nat / players,
                players > 0,
        ;
        assert(upto * base == (upto - 1) * base + base) by (nonlinear_arith)
            requires
                upto > 0,
        ;
        assert(weight as nat == base + if upto - 1 < 100nat % players {
            1nat
        } else {
            0nat
        });
    }
}

/// Equal shares give out everything, and no two differ by more than one.
pub proof fn equal_shares_are_fair(players: nat, a: usize, b: usize)
    requires
        0 < players <= usize::MAX,
        a < players,
        b < players,
    ensures
        equal_share(players).dom().finite(),
        total_weight(equal_share(players)) == 100,
        equal_share(players)[a] <= equal_share(players)[b] + 1,
{
    first_shares_sum(players, players);
    assert(first_shares(players, players as int) =~= equal_share(players));
    assert(players * (100nat / players) + 100nat % players == 100) by (nonlinear_arith)
        requires
            players > 0,
    ;
    assert(100nat % players < players) by (nonlinear_arith)
        requires
            players > 0,
    ;
    assert(100nat / players <= 100) by (nonlinear_arith)
        requires
            players > 0,
    ;
}

/// The winners of a ranking share a hundred among them, whatever their places.
pub proof fn ranked_shares_give_everything(winners: Seq<usize>, players: nat, places: nat)
    requires
        is_ranking(winners, players, places),
        0 < places <= 5,
    ensures
        placed(winners, percentages(places), places as int).dom().finite(),
        total_weight(placed(winners, percentages(places), places as int)) == 100,
{
    let weights = percentages(places);
    let none = placed(winners, weights, 0);
    assert(none.dom() =~= Set::empty());
    place_next(winners, players, places, 0);
    if places > 1 {
        place_next(winners, players, places, 1);
    }
    if places > 2 {
        place_next(winners, players, places, 2);
    }
    if places > 3 {
        place_next(winners, players, places, 3);
    }
    if places > 4 {
        place_next(winners, players, places, 4);
    }
}

/// The next winner's weight adds to the sum.
proof fn place_next(winners: Seq<usize>, players: nat, places: nat, at: int)
    requires
        is_ranking(winners, players, places),
        0 <= at < places,
        places <= 5,
        placed(winners, percentages(places), at).dom().finite(),
    ensures
        placed(winners, percentages(places), at + 1).dom().finite(),
        total_weight(placed(winners, percentages(places), at + 1)) == total_weight(
            placed(winners, percentages(places), at),
        ) + percentages(places)[at],
{
    placed_only_before(winners, percentages(places), at, winners[at]);
    total_with(
        placed(winners, percentages(places), at),
        winners[at],
        percentages(places)[at],
    );
}

/// Only the winners before `upto` are placed.
proof fn placed_only_before(winners: Seq<usize>, weights: Seq<u64>, upto: int, player: usize)
    requires
        0 <= upto <= winners.len(),
        forall|i: int| 0 <= i < upto ==> #[trigger] winners[i] != player,
    ensures
        !placed(winners, weights, upto).contains_key(player),
    decreases upto,
{
    if upto > 0 {
        placed_only_before(winners, weights, upto - 1, player);
    }
}

/// Every outcome of a competition, its refund and its expiry among them, gives out exactly the
/// whole pot.
pub proof fn every_outcome_gives_everything(
    payouts: OutcomePayouts,
    players: nat,
    places: nat,
    outcome: usize,
)
    requires
        is_slot_payouts(payouts, players, places),
        0 < places <= players <= 100,
        places <= 5 || places == players,
        payouts.attestations@.contains_key(outcome),
    ensures
        payouts.attestations@[outcome]@.dom().finite(),
        total_weight(payouts.attestations@[outcome]@) == 100,
        total_weight((payouts.expiry->0)@) == 100,
{
    equal_shares_are_fair(players, 0, 0);
    rankings_can_be_listed(players, places);
    let outcomes = possible_outcomes(players, places);
    let winners = outcomes[outcome as int];
    if winners.len() != players {
        assert(outcome < outcomes.len() - 1) by {
            assert(everyone(players).len() == players);
        }
        assert(winners == all_rankings(players, places)[outcome as int]);
        ranked_shares_give_everything(winners, players, places);
    }
}

/// The payouts that a contract is built with give out the whole pot in every outcome, however its
/// players are listed.
pub proof fn every_contract_outcome_gives_everything(
    payouts: OutcomePayouts,
    entries: Seq<UserEntry>,
    players: Seq<Player>,
    places: nat,
    outcome: usize,
)
    requires
        is_payouts(payouts, entries, players, places),
        0 < players.len() <= usize::MAX,
        payouts.attestations@.contains_key(outcome),
    ensures
        total_weight(payouts.attestations@[outcome]@) == 100,
        total_weight((payouts.expiry->0)@) == 100,
{
    equal_shares_are_fair(players.len(), 0, 0);
    let outcomes = possible_outcomes(entries.len(), places);
    let winners = outcomes[outcome as int];
    assert(outcome_weights(entries, players, places, winners) == Ok::<
        Map<usize, u64>,
        OutcomeFault,
    >(payouts.attestations@[outcome]@));
}

/// The players are listed in the order of the tickets, each under their own key.
pub open spec fn listed_by_ticket(entries: Seq<UserEntry>, players: Seq<Player>) -> bool {
    &&& entries.len() == players.len()
    &&& forall|i: int|
        0 <= i < entries.len() ==> point_of_hex((#[trigger] entries[i]).ephemeral_pubkey@) == Some(
            players[i].pubkey@,
        )
    &&& forall|i: int, j: int|
        0 <= i < j < players.len() ==> (#[trigger] players[i]).pubkey@ != (
        #[trigger] players[j]).pubkey@
}

/// A player with a key of their own is found under it.
proof fn finds_own(players: Seq<Player>, from: int, at: int)
    requires
        0 <= from <= at < players.len() <= usize::MAX,
        forall|i: int, j: int|
            0 <= i < j < players.len() ==> (#[trigger] players[i]).pubkey@ != (
            #[trigger] players[j]).pubkey@,
    ensures
        first_player(players, players[at].pubkey@, from) == Some(at as usize),
    decreases at - from,
{
    if from < at {
        finds_own(players, from + 1, at);
    }
}

/// The players of a ranking are found where the ranking counts them.
proof fn finds_ranked(entries: Seq<UserEntry>, players: Seq<Player>, winners: Seq<usize>)
    requires
        listed_by_ticket(entries, players),
        players.len() <= usize::MAX,
        forall|i: int| 0 <= i < winners.len() ==> (#[trigger] winners[i]) < entries.len(),
    ensures
        players_of(players, winning_keys(entries, winners)) == Ok::<
            Seq<usize>,
            (int, KeyFault),
        >(winners),
    decreases winners.len(),
{
    let keys = winning_keys(entries, winners);
    if winners.len() == 0 {
        assert(winners =~= Seq::empty());
    } else {
        let rest = winners.drop_last();
        finds_ranked(entries, players, rest);
        assert(winning_keys(entries, rest) =~= keys.drop_last());
        let last = winners.last();
        assert(keys.last() == entries[last as int].ephemeral_pubkey@);
        finds_own(players, 0, last as int);
        assert(player_of(players, keys.last()) == Ok::<usize, KeyFault>(last));
        assert(rest.push(last) =~= winners);
    }
}

/// Where the players are listed in the order of the tickets, each outcome pays by tickets.
proof fn outcomes_pay_by_ticket(
    entries: Seq<UserEntry>,
    players: Seq<Player>,
    places: nat,
    at: int,
)
    requires
        listed_by_ticket(entries, players),
        0 < places <= players.len() <= 100,
        places <= 5 || places == players.len(),
        0 <= at < possible_outcomes(players.len(), places).len(),
    ensures
        outcome_weights(
            entries,
            players,
            places,
            possible_outcomes(players.len(), places)[at],
        ) == Ok::<Map<usize, u64>, OutcomeFault>(
            slot_weights(players.len(), places, possible_outcomes(players.len(), places)[at]),
        ),
{
    let n = players.len();
    rankings_can_be_listed(n, places);
    let outcomes = possible_outcomes(n, places);
    let winners = outcomes[at];
    if winners.len() != n {
        assert(at < outcomes.len() - 1) by {
            assert(everyone(n).len() == n);
        }
        assert(winners == all_rankings(n, places)[at]);
        finds_ranked(entries, players, winners);
        ranked_shares_give_everything(winners, n, places);
    }
}

/// Counting the players by their tickets gives the payouts that the contract is built with: the
/// contract pays what was authorised before it existed. `stored` are the entries in whatever order
/// they were stored in, `entries` the same in the order of their tickets, which is the order that
/// the players are listed in. Making the contract's payouts then succeeds, and every outcome, the
/// refund and the expiry among them, pays each player what their ticket's slot says.
pub proof fn slots_are_what_the_contract_pays(
    stored: Seq<UserEntry>,
    entries: Seq<UserEntry>,
    players: Seq<Player>,
    places: nat,
    slots: OutcomePayouts,
    made: Result<OutcomePayouts, PayoutsError>,
)
    requires
        sorts_by_ticket(stored, entries),
        listed_by_ticket(entries, players),
        0 < places <= players.len() <= 100,
        places <= 5 || places == players.len(),
        is_slot_payouts(slots, players.len(), places),
        are_payouts(made, entries, players, places),
    ensures
        made matches Ok(contract) && {
            &&& contract.attestations@.dom() == slots.attestations@.dom()
            &&& forall|outcome: usize| #[trigger]
                slots.attestations@.contains_key(outcome) ==> contract.attestations@[outcome]@
                    == slots.attestations@[outcome]@
            &&& (contract.expiry->0)@ == (slots.expiry->0)@
        },
{
    let outcomes = possible_outcomes(players.len(), places);
    assert forall|i: int| 0 <= i < outcomes.len() implies outcome_weights(
        entries,
        players,
        places,
        #[trigger] outcomes[i],
    ) == Ok::<Map<usize, u64>, OutcomeFault>(
        slot_weights(players.len(), places, outcomes[i]),
    ) by {
        outcomes_pay_by_ticket(entries, players, places, i);
    }
    match made {
        Ok(contract) => {
            assert forall|outcome: usize| #[trigger]
                slots.attestations@.contains_key(outcome) implies contract.attestations@[outcome]@
                == slots.attestations@[outcome]@ by {
                assert(contract.attestations@.contains_key(outcome));
                assert(outcome_weights(entries, players, places, outcomes[outcome as int]) is Ok);
            }
            assert forall|outcome: usize|
                slots.attestations@.dom().contains(outcome)
                    == contract.attestations@.dom().contains(outcome) by {
                assert(slots.attestations@.contains_key(outcome)
                    == contract.attestations@.contains_key(outcome));
            }
            assert(contract.attestations@.dom() =~= slots.attestations@.dom());
        },
        Err(error) => {
            assert(!cannot_be_paid(error, entries, players, places));
        },
    }
}

/// What the first `upto` places take together.
spec fn first_places(weights: Seq<u64>, upto: int) -> int
    decreases upto,
{
    if upto <= 0 {
        0
    } else {
        first_places(weights, upto - 1) + weights[upto - 1]
    }
}

/// A winner who is not placed again has the weight of their place.
proof fn placed_at(winners: Seq<usize>, weights: Seq<u64>, upto: int, at: int)
    requires
        0 <= at < upto <= winners.len(),
        forall|j: int| at < j < upto ==> #[trigger] winners[j] != winners[at],
    ensures
        placed(winners, weights, upto).contains_key(winners[at]),
        placed(winners, weights, upto)[winners[at]] == weights[at],
    decreases upto,
{
    if at < upto - 1 {
        placed_at(winners, weights, upto - 1, at);
        assert(winners[upto - 1] != winners[at]);
    }
}

/// Whoever is placed twice takes less than two places.
proof fn placed_twice_takes_less(winners: Seq<usize>, weights: Seq<u64>, upto: int)
    requires
        0 <= upto <= winners.len(),
        forall|i: int| 0 <= i < upto ==> (#[trigger] weights[i]) > 0,
    ensures
        placed(winners, weights, upto).dom().finite(),
        forall|i: int|
            0 <= i < upto ==> placed(winners, weights, upto).contains_key(#[trigger] winners[i]),
        forall|p: usize| #[trigger]
            placed(winners, weights, upto).contains_key(p) ==> placed(winners, weights, upto)[p]
                > 0,
        total_weight(placed(winners, weights, upto)) <= first_places(weights, upto),
        (exists|i: int, j: int|
            0 <= i < j < upto && #[trigger] winners[i] == #[trigger] winners[j]) ==> total_weight(
            placed(winners, weights, upto),
        ) < first_places(weights, upto),
    decreases upto,
{
    if upto <= 0 {
        assert(placed(winners, weights, upto).dom() =~= Set::empty());
    } else {
        placed_twice_takes_less(winners, weights, upto - 1);
        let before = placed(winners, weights, upto - 1);
        total_with(before, winners[upto - 1], weights[upto - 1]);
        if exists|i: int, j: int|
            0 <= i < j < upto && #[trigger] winners[i] == #[trigger] winners[j] {
            let (i, j) = choose|i: int, j: int|
                0 <= i < j < upto && #[trigger] winners[i] == #[trigger] winners[j];
            if j == upto - 1 {
                assert(before.contains_key(winners[i]));
            }
        }
    }
}

/// The places of a competition share a hundred, the better one always the larger part.
pub proof fn better_places_take_more(places: nat, better: int, worse: int)
    requires
        0 < places <= 5,
        0 <= better < worse < places,
    ensures
        percentages(places).len() == places,
        percentages(places)[better] > percentages(places)[worse] > 0,
{
}

/// All places take the whole.
proof fn places_take_everything(places: nat)
    requires
        0 < places <= 5,
    ensures
        percentages(places).len() == places,
        forall|i: int| 0 <= i < places ==> (#[trigger] percentages(places)[i]) > 0,
        first_places(percentages(places), places as int) == 100,
{
    reveal_with_fuel(first_places, 6);
}

/// The outcomes of a competition are every ranking of its places, each once and in ascending order,
/// and last that all are refunded.
pub proof fn outcomes_are_every_ranking_and_the_refund(players: nat, places: nat)
    requires
        players <= usize::MAX,
    ensures
        ({
            let outcomes = possible_outcomes(players, places);
            let last = outcomes.len() - 1;
            &&& last >= 0
            &&& outcomes[last].len() == players
            &&& forall|p: int| 0 <= p < players ==> #[trigger] outcomes[last][p] == p
            &&& forall|o: int|
                0 <= o < last ==> {
                    let ranking = #[trigger] outcomes[o];
                    &&& ranking.len() == places
                    &&& forall|i: int| 0 <= i < places ==> (#[trigger] ranking[i]) < players
                    &&& ranking.no_duplicates()
                }
            &&& forall|ranking: Seq<usize>|
                ranking.len() == places && ranking.no_duplicates() && (forall|i: int|
                    0 <= i < places ==> (#[trigger] ranking[i]) < players)
                    ==> #[trigger] outcomes.take(last).contains(ranking)
            &&& forall|o: int, later: int|
                0 <= o < later < last ==> ranks_before(
                    #[trigger] outcomes[o],
                    #[trigger] outcomes[later],
                )
        }),
{
    rankings_can_be_listed(players, places);
    let rankings = all_rankings(players, places);
    let outcomes = possible_outcomes(players, places);
    let last = outcomes.len() - 1;
    assert(outcomes.take(last) =~= rankings);
    assert forall|o: int| 0 <= o < last implies {
        let ranking = #[trigger] outcomes[o];
        &&& ranking.len() == places
        &&& forall|i: int| 0 <= i < places ==> (#[trigger] ranking[i]) < players
        &&& ranking.no_duplicates()
    } by {
        assert(outcomes[o] == rankings[o]);
        assert(is_ranking(rankings[o], players, places));
    }
    assert forall|ranking: Seq<usize>|
        ranking.len() == places && ranking.no_duplicates() && (forall|i: int|
            0 <= i < places ==> (#[trigger] ranking[i]) < players) implies #[trigger] outcomes.take(
        last,
    ).contains(ranking) by {
        assert(is_ranking(ranking, players, places));
    }
    assert forall|o: int, later: int| 0 <= o < later < last implies ranks_before(
        #[trigger] outcomes[o],
        #[trigger] outcomes[later],
    ) by {
        assert(outcomes[o] == rankings[o] && outcomes[later] == rankings[later]);
    }
    assert(outcomes[last] == everyone(players));
}

/// Where fewer win than play, each outcome that is decided by a ranking pays exactly those who are
/// ranked, each the percentage of their place: a better place is always paid more than a worse one.
pub proof fn each_slot_is_paid_for_its_place(
    payouts: OutcomePayouts,
    players: nat,
    places: nat,
    outcome: usize,
)
    requires
        is_slot_payouts(payouts, players, places),
        0 < places <= 5,
        players <= 100,
        payouts.attestations@.contains_key(outcome),
        possible_outcomes(players, places)[outcome as int].len() < players,
    ensures
        ({
            let ranking = possible_outcomes(players, places)[outcome as int];
            let paid = payouts.attestations@[outcome]@;
            &&& ranking.len() == places
            &&& forall|i: int|
                0 <= i < places ==> paid.contains_key(#[trigger] ranking[i]) && paid[ranking[i]]
                    == percentages(places)[i]
            &&& forall|p: usize| #[trigger] paid.contains_key(p) ==> ranking.contains(p)
            &&& forall|i: int, j: int|
                0 <= i < j < places ==> paid[#[trigger] ranking[i]] > paid[#[trigger] ranking[j]]
            &&& places == 1 ==> paid[ranking[0]] == 100
            &&& places == 2 ==> paid[ranking[0]] == 60 && paid[ranking[1]] == 40
            &&& places == 3 ==> paid[ranking[0]] == 45 && paid[ranking[1]] == 35 && paid[ranking[2]]
                == 20
            &&& places == 4 ==> paid[ranking[0]] == 42 && paid[ranking[1]] == 30 && paid[ranking[2]]
                == 18 && paid[ranking[3]] == 10
            &&& places == 5 ==> paid[ranking[0]] == 40 && paid[ranking[1]] == 27 && paid[ranking[2]]
                == 16 && paid[ranking[3]] == 9 && paid[ranking[4]] == 8
        }),
{
    let outcomes = possible_outcomes(players, places);
    let ranking = outcomes[outcome as int];
    let paid = payouts.attestations@[outcome]@;
    outcomes_are_every_ranking_and_the_refund(players, places);
    assert(outcome < outcomes.len() - 1);
    assert(paid == placed(ranking, percentages(places), places as int));
    assert forall|i: int| 0 <= i < places implies paid.contains_key(#[trigger] ranking[i])
        && paid[ranking[i]] == percentages(places)[i] by {
        placed_at(ranking, percentages(places), places as int, i);
    }
    assert forall|p: usize| #[trigger] paid.contains_key(p) implies ranking.contains(p) by {
        if !ranking.contains(p) {
            assert forall|i: int| 0 <= i < places implies #[trigger] ranking[i] != p by {
                assert(ranking.contains(ranking[i]));
            }
            placed_only_before(ranking, percentages(places), places as int, p);
        }
    }
}

/// The weights give each of `players` players an equal share of a hundred, and nobody else
/// anything: no two shares differ by more than one, and none is larger than an earlier one.
pub open spec fn shares_alike(weights: Map<usize, u64>, players: nat) -> bool {
    &&& forall|p: usize| #[trigger] weights.contains_key(p) <==> p < players
    &&& forall|p: usize, q: usize|
        p < q < players ==> (#[trigger] weights[q]) <= (#[trigger] weights[p]) <= weights[q] + 1
    &&& total_weight(weights) == 100
}

/// A hundred in equal shares is shared alike.
proof fn equal_shares_are_alike(players: nat)
    requires
        0 < players <= usize::MAX,
    ensures
        shares_alike(equal_share(players), players),
{
    let weights = equal_share(players);
    equal_shares_are_fair(players, 0, 0);
    assert forall|p: usize, q: usize| p < q < players implies (#[trigger] weights[q]) <= (
    #[trigger] weights[p]) <= weights[q] + 1 by {
        equal_shares_are_fair(players, p, q);
        assert(100nat / players <= 100) by (nonlinear_arith)
            requires
                players > 0,
        ;
    }
}

/// An outcome in which all win, the refund among them, and the expiry share the pot alike.
pub proof fn refunds_are_shared_alike(
    payouts: OutcomePayouts,
    players: nat,
    places: nat,
    outcome: usize,
)
    requires
        is_slot_payouts(payouts, players, places),
        0 < players <= usize::MAX,
        payouts.attestations@.contains_key(outcome),
        possible_outcomes(players, places)[outcome as int].len() == players,
    ensures
        shares_alike(payouts.attestations@[outcome]@, players),
        payouts.expiry matches Some(expiry) && shares_alike(expiry@, players),
{
    equal_shares_are_alike(players);
}

/// The player is the first with the key that the text stands for.
pub open spec fn has_key(players: Seq<Player>, player: usize, key: Seq<char>) -> bool {
    &&& player < players.len()
    &&& point_of_hex(key) == Some(players[player as int].pubkey@)
    &&& forall|other: int|
        0 <= other < player ==> #[trigger] players[other].pubkey@
            != players[player as int].pubkey@
}

/// Who is found under a key is the first who has it.
proof fn found_has_key(players: Seq<Player>, point: Seq<u8>, from: int)
    requires
        0 <= from <= players.len() <= usize::MAX,
        forall|other: int| 0 <= other < from ==> #[trigger] players[other].pubkey@ != point,
    ensures
        first_player(players, point, from) matches Some(player) ==> player < players.len()
            && players[player as int].pubkey@ == point && forall|other: int|
            0 <= other < player ==> #[trigger] players[other].pubkey@ != point,
        first_player(players, point, from) is None ==> forall|other: int|
            0 <= other < players.len() ==> #[trigger] players[other].pubkey@ != point,
    decreases players.len() - from,
{
    if from < players.len() && players[from].pubkey@ != point {
        found_has_key(players, point, from + 1);
    }
}

/// Those who are found under keys have them, in the same order.
proof fn found_have_keys(players: Seq<Player>, keys: Seq<Seq<char>>)
    requires
        players.len() <= usize::MAX,
    ensures
        players_of(players, keys) matches Ok(found) ==> found.len() == keys.len() && forall|i: int|
            0 <= i < keys.len() ==> has_key(players, #[trigger] found[i], keys[i]),
    decreases keys.len(),
{
    if keys.len() > 0 {
        found_have_keys(players, keys.drop_last());
        if let Some(point) = point_of_hex(keys.last()) {
            found_has_key(players, point, 0);
        }
        if let Ok(found) = players_of(players, keys) {
            let earlier = players_of(players, keys.drop_last())->Ok_0;
            assert forall|i: int| 0 <= i < keys.len() implies has_key(
                players,
                #[trigger] found[i],
                keys[i],
            ) by {
                if i < keys.len() - 1 {
                    assert(found[i] == earlier[i]);
                    assert(keys.drop_last()[i] == keys[i]);
                }
            }
        }
    }
}

/// A key has one first holder.
proof fn one_has_key(players: Seq<Player>, a: usize, b: usize, key: Seq<char>)
    requires
        has_key(players, a, key),
        has_key(players, b, key),
    ensures
        a == b,
{
    if a < b {
        assert(players[a as int].pubkey@ != players[b as int].pubkey@);
    } else if b < a {
        assert(players[b as int].pubkey@ != players[a as int].pubkey@);
    }
}

/// Where fewer win than play, each outcome of a contract that is decided by a ranking pays exactly
/// those players who have the keys of the ranked entries, each the percentage of the entry's place,
/// however the contract lists its players.
pub proof fn each_entry_is_paid_for_its_place(
    payouts: OutcomePayouts,
    entries: Seq<UserEntry>,
    players: Seq<Player>,
    places: nat,
    outcome: usize,
)
    requires
        is_payouts(payouts, entries, players, places),
        0 < places <= 5,
        players.len() <= usize::MAX,
        entries.len() <= usize::MAX,
        payouts.attestations@.contains_key(outcome),
        possible_outcomes(entries.len(), places)[outcome as int].len() < entries.len(),
    ensures
        ({
            let ranking = possible_outcomes(entries.len(), places)[outcome as int];
            let paid = payouts.attestations@[outcome]@;
            &&& ranking.len() == places
            &&& forall|i: int|
                0 <= i < places ==> exists|p: usize| #[trigger]
                    has_key(players, p, entries[#[trigger] ranking[i] as int].ephemeral_pubkey@)
            &&& forall|i: int, p: usize|
                0 <= i < places && #[trigger] has_key(
                    players,
                    p,
                    entries[#[trigger] ranking[i] as int].ephemeral_pubkey@,
                ) ==> paid.contains_key(p) && paid[p] == percentages(places)[i]
            &&& forall|p: usize| #[trigger]
                paid.contains_key(p) ==> exists|i: int|
                    0 <= i < places && has_key(
                        players,
                        p,
                        entries[#[trigger] ranking[i] as int].ephemeral_pubkey@,
                    )
            &&& forall|i: int, j: int, p: usize, q: usize|
                0 <= i < j < places && #[trigger] has_key(
                    players,
                    p,
                    entries[#[trigger] ranking[i] as int].ephemeral_pubkey@,
                ) && #[trigger] has_key(
                    players,
                    q,
                    entries[#[trigger] ranking[j] as int].ephemeral_pubkey@,
                ) ==> paid[p] > paid[q]
        }),
{
    let outcomes = possible_outcomes(entries.len(), places);
    let ranking = outcomes[outcome as int];
    let paid = payouts.attestations@[outcome]@;
    let keys = winning_keys(entries, ranking);
    let weights = percentages(places);
    outcomes_are_every_ranking_and_the_refund(entries.len(), places);
    assert(outcome < outcomes.len() - 1);
    assert(outcome_weights(entries, players, places, ranking) == Ok::<
        Map<usize, u64>,
        OutcomeFault,
    >(paid));
    found_have_keys(players, keys);
    let found = players_of(players, keys)->Ok_0;
    places_take_everything(places);
    placed_twice_takes_less(found, weights, places as int);
    assert forall|i: int| 0 <= i < places implies has_key(
        players,
        #[trigger] found[i],
        entries[ranking[i] as int].ephemeral_pubkey@,
    ) by {
        assert(keys[i] == entries[ranking[i] as int].ephemeral_pubkey@);
    }
    assert forall|i: int| 0 <= i < places implies exists|p: usize| #[trigger]
        has_key(players, p, entries[#[trigger] ranking[i] as int].ephemeral_pubkey@) by {
        assert(has_key(players, found[i], entries[ranking[i] as int].ephemeral_pubkey@));
    }
    assert forall|i: int, p: usize|
        0 <= i < places && #[trigger] has_key(
            players,
            p,
            entries[#[trigger] ranking[i] as int].ephemeral_pubkey@,
        ) implies paid.contains_key(p) && paid[p] == percentages(places)[i] by {
        one_has_key(players, p, found[i], entries[ranking[i] as int].ephemeral_pubkey@);
        placed_at(found, weights, places as int, i);
    }
    assert forall|p: usize| #[trigger] paid.contains_key(p) implies exists|i: int|
        0 <= i < places && has_key(
            players,
            p,
            entries[#[trigger] ranking[i] as int].ephemeral_pubkey@,
        ) by {
        if forall|i: int| 0 <= i < places ==> #[trigger] found[i] != p {
            placed_only_before(found, weights, places as int, p);
        }
        let i = choose|i: int| 0 <= i < places && #[trigger] found[i] == p;
        assert(has_key(players, p, entries[ranking[i] as int].ephemeral_pubkey@));
    }
}

/// An outcome of a contract in which all win, the refund among them, and the contract's expiry share
/// the pot alike among all its players.
pub proof fn contracts_refund_alike(
    payouts: OutcomePayouts,
    entries: Seq<UserEntry>,
    players: Seq<Player>,
    places: nat,
    outcome: usize,
)
    requires
        is_payouts(payouts, entries, players, places),
        0 < players.len() <= usize::MAX,
        payouts.attestations@.contains_key(outcome),
        possible_outcomes(entries.len(), places)[outcome as int].len() == entries.len(),
    ensures
        shares_alike(payouts.attestations@[outcome]@, players.len()),
        payouts.expiry matches Some(expiry) && shares_alike(expiry@, players.len()),
{
    equal_shares_are_alike(players.len());
    assert(outcome_weights(
        entries,
        players,
        places,
        possible_outcomes(entries.len(), places)[outcome as int],
    ) == Ok::<Map<usize, u64>, OutcomeFault>(payouts.attestations@[outcome]@));
}

/// A list of shares of the funding value, by their weights.
pub open spec fn shares_sum(funding_value: nat, weights: Seq<u64>) -> nat
    decreases weights.len(),
{
    if weights.len() == 0 {
        0
    } else {
        shares_sum(funding_value, weights.drop_last()) + weighed_share(
            funding_value,
            weights.last() as nat,
        )
    }
}

/// A list of weights, summed.
pub open spec fn weights_sum(weights: Seq<u64>) -> nat
    decreases weights.len(),
{
    if weights.len() == 0 {
        0
    } else {
        weights_sum(weights.drop_last()) + weights.last() as nat
    }
}

/// Paying each winner their share, rounded down, never pays more than the pot.
pub proof fn payouts_never_exceed_the_pot(funding_value: u64, weights: Seq<u64>)
    requires
        weights_sum(weights) <= 100,
    ensures
        shares_sum(funding_value as nat, weights) <= funding_value,
{
    shares_at_most(funding_value as nat, weights);
    let total = weights_sum(weights);
    assert(funding_value * total <= funding_value * 100) by (nonlinear_arith)
        requires
            total <= 100,
    ;
}

/// A hundred times the shares is at most the funding value times the weights.
proof fn shares_at_most(funding_value: nat, weights: Seq<u64>)
    ensures
        100 * shares_sum(funding_value, weights) <= funding_value * weights_sum(weights),
    decreases weights.len(),
{
    if weights.len() > 0 {
        let rest = weights.drop_last();
        let last = weights.last() as nat;
        shares_at_most(funding_value, rest);
        assert(funding_value * (weights_sum(rest) + last) == funding_value * weights_sum(rest)
            + funding_value * last) by (nonlinear_arith);
    }
}

} // verus!
