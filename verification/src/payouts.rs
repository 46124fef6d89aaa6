//! How the pot is shared: each outcome's weights, which always sum to a hundred.

use crate::competition::Competition;
use crate::contract::{OutcomePayouts, PayoutWeights, Player};
use crate::encoding::{point_from_hex, point_of_hex};
use crate::entries::{sort_by_ticket, sorts_by_ticket, UserEntry};
use crate::rankings::{
    everyone, generate_ranking_permutations, is_ranking, lists_rankings, all_rankings,
    possible_outcomes, ranking_views, rankings_fit,
};
use std::collections::BTreeMap;
use vstd::prelude::*;

verus! {

broadcast use vstd::std_specs::btree::group_btree_axioms;

/// Why the payouts of a contract cannot be made.
#[derive(Debug, PartialEq, Eq)]
pub enum PayoutsError {
    /// The players or places cannot be paid out.
    InvalidCounts,
    /// An entry's key is no point.
    InvalidKey(String),
    /// No player has an entry's key.
    NoPlayer(String),
    /// The outcome has not as many winners as there are places.
    WinnerCount(usize),
    /// The outcome's weights do not sum to a hundred.
    TotalWeight(usize),
}

/// What each place takes out of a hundred, the best first.
pub open spec fn percentages(num_winners: nat) -> Seq<u64> {
    if num_winners == 2 {
        seq![60u64, 40u64]
    } else if num_winners == 3 {
        seq![45u64, 35u64, 20u64]
    } else if num_winners == 4 {
        seq![42u64, 30u64, 18u64, 10u64]
    } else if num_winners == 5 {
        seq![40u64, 27u64, 16u64, 9u64, 8u64]
    } else {
        seq![100u64]
    }
}

/// A hundred in equal shares among `players`; what is left over goes to the first ones, one each.
pub open spec fn equal_share(players: nat) -> Map<usize, u64> {
    Map::new(|p: usize| p < players, |p: usize| share_of(players, p as nat))
}

/// A player's equal share of a hundred.
pub open spec fn share_of(players: nat, player: nat) -> u64 {
    (100nat / players + if player < 100nat % players {
        1nat
    } else {
        0nat
    }) as u64
}

/// The first `upto` of `winners` with their weights; of one that comes twice, the last.
pub open spec fn placed(winners: Seq<usize>, weights: Seq<u64>, upto: int) -> Map<usize, u64>
    decreases upto,
{
    if upto <= 0 {
        Map::empty()
    } else {
        placed(winners, weights, upto - 1).insert(winners[upto - 1], weights[upto - 1])
    }
}

/// The sum of all weights.
pub open spec fn total_weight(weights: Map<usize, u64>) -> nat
    decreases weights.dom().len(),
    when weights.dom().finite()
{
    if weights.dom().len() == 0 {
        0
    } else {
        let p = weights.dom().choose();
        weights[p] as nat + total_weight(weights.remove(p))
    }
}

/// What each of the outcomes that pays `winners` weighs, where player indices are ticket slots.
pub open spec fn slot_weights(players: nat, places: nat, winners: Seq<usize>) -> Map<usize, u64> {
    if winners.len() == players {
        equal_share(players)
    } else {
        placed(winners, percentages(places), winners.len() as int)
    }
}

/// The payouts of a competition whose players are counted by their tickets.
pub open spec fn is_slot_payouts(payouts: OutcomePayouts, players: nat, places: nat) -> bool {
    let outcomes = possible_outcomes(players, places);
    &&& forall|i: usize| #[trigger] payouts.attestations@.contains_key(i) <==> i < outcomes.len()
    &&& forall|i: usize|
        i < outcomes.len() ==> (#[trigger] payouts.attestations@[i])@ == slot_weights(
            players,
            places,
            outcomes[i as int],
        )
    &&& payouts.expiry matches Some(expiry) && expiry@ == equal_share(players)
}

/// Removing a player takes their weight off the sum.
proof fn total_without(weights: Map<usize, u64>, player: usize)
    requires
        weights.dom().finite(),
        weights.contains_key(player),
    ensures
        total_weight(weights) == weights[player] as nat + total_weight(weights.remove(player)),
    decreases weights.dom().len(),
{
    let p = weights.dom().choose();
    assert(weights.dom().contains(player));
    assert(weights.dom().len() > 0) by {
        if weights.dom().len() == 0 {
            assert(weights.dom() =~= Set::empty());
        }
    }
    assert(weights.dom().contains(p));
    assert(weights.remove(p).dom() =~= weights.dom().remove(p));
    assert(weights.remove(player).dom() =~= weights.dom().remove(player));
    if p != player {
        total_without(weights.remove(p), player);
        total_without(weights.remove(player), p);
        assert(weights.remove(p).remove(player) =~= weights.remove(player).remove(p));
    }
}

/// Setting a player's weight adds it to the sum, in place of the one they had.
pub proof fn total_with(weights: Map<usize, u64>, player: usize, weight: u64)
    requires
        weights.dom().finite(),
    ensures
        weights.insert(player, weight).dom().finite(),
        weights.contains_key(player) ==> total_weight(weights.insert(player, weight))
            == total_weight(weights) - weights[player] + weight,
        !weights.contains_key(player) ==> total_weight(weights.insert(player, weight))
            == total_weight(weights) + weight,
{
    let after = weights.insert(player, weight);
    assert(after.dom() =~= weights.dom().insert(player));
    total_without(after, player);
    if weights.contains_key(player) {
        total_without(weights, player);
        assert(after.remove(player) =~= weights.remove(player));
    } else {
        assert(after.remove(player) =~= weights);
    }
}

/// Nothing sums to nothing.
proof fn total_of_nothing()
    ensures
        total_weight(Map::<usize, u64>::empty()) == 0,
        Map::<usize, u64>::empty().dom().finite(),
{
    assert(Map::<usize, u64>::empty().dom() =~= Set::empty());
}

/// What each place takes out of a hundred.
pub fn get_percentage_weights(num_winners: usize) -> (weights: Vec<u64>)
    ensures
        weights@ == percentages(num_winners as nat),
{
    match num_winners {
        2 => vec![60, 40],
        3 => vec![45, 35, 20],
        4 => vec![42, 30, 18, 10],
        5 => vec![40, 27, 16, 9, 8],
        _ => vec![100],
    }
}

/// A hundred in equal shares.
pub fn equal_weights(players: usize) -> (weights: PayoutWeights)
    requires
        players > 0,
    ensures
        weights@ == equal_share(players as nat),
{
    let mut weights: PayoutWeights = BTreeMap::new();
    let base: u64 = 100 / players as u64;
    let remainder: u64 = 100 % players as u64;
    let mut i: usize = 0;
    while i < players
        invariant
            i <= players,
            players > 0,
            base == 100u64 / players as u64,
            remainder == 100u64 % players as u64,
            weights@ =~= Map::new(
                |p: usize| p < i,
                |p: usize| share_of(players as nat, p as nat),
            ),
        decreases players - i,
    {
        assert(base <= 100) by (nonlinear_arith)
            requires
                base == 100u64 / players as u64,
                players > 0,
        ;
        let weight: u64 = if (i as u64) < remainder {
            base + 1
        } else {
            base
        };
        assert(weight == share_of(players as nat, i as nat));
        weights.insert(i, weight);
        i = i + 1;
    }
    assert(weights@ =~= equal_share(players as nat));
    weights
}

/// The winners with their weights, the best first, and the sum of the weights.
fn place_winners(winners: &Vec<usize>, weights: &Vec<u64>) -> (placed_winners: (PayoutWeights, u64))
    requires
        winners@.len() <= weights@.len(),
        forall|i: int| 0 <= i < weights@.len() ==> (#[trigger] weights@[i]) <= 100,
        winners@.len() <= 1000,
    ensures
        placed_winners.0@ == placed(winners@, weights@, winners@.len() as int),
        placed_winners.0@.dom().finite(),
        placed_winners.1 == total_weight(placed_winners.0@),
{
    let mut payout: PayoutWeights = BTreeMap::new();
    let mut total: u64 = 0;
    let mut rank: usize = 0;
    proof {
        total_of_nothing();
    }
    while rank < winners.len()
        invariant
            rank <= winners@.len() <= weights@.len(),
            winners@.len() <= 1000,
            forall|i: int| 0 <= i < weights@.len() ==> (#[trigger] weights@[i]) <= 100,
            payout@ == placed(winners@, weights@, rank as int),
            payout@.dom().finite(),
            total == total_weight(payout@),
            total <= rank * 100,
        decreases winners@.len() - rank,
    {
        let weight: u64 = weights[rank];
        let ghost before = payout@;
        proof {
            total_with(before, winners@[rank as int], weight);
            if before.contains_key(winners@[rank as int]) {
                total_without(before, winners@[rank as int]);
            }
        }
        match payout.insert(winners[rank], weight) {
            Some(replaced) => {
                total = total - replaced + weight;
            },
            None => {
                total = total + weight;
            },
        }
        rank = rank + 1;
    }
    (payout, total)
}

/// The places of a competition can be weighed: at most five share the pot unequally.
pub open spec fn places_weigh(players: nat, places: nat) -> bool {
    places <= 5 || places >= players
}

/// Whether the places of a competition have weights.
pub fn do_places_weigh(players: usize, places: usize) -> (weigh: bool)
    ensures
        weigh == places_weigh(players as nat, places as nat),
{
    places <= 5 || places >= players
}

/// The payouts of a competition whose players are counted by their tickets: each ranking pays its
/// places, everyone is refunded last, and the contract's expiry refunds everyone too.
pub fn slot_payouts(players: usize, places: usize) -> (payouts: Result<OutcomePayouts, PayoutsError>)
    requires
        0 < places <= players <= 100 ==> rankings_fit(players as nat, places as nat)
            && places_weigh(players as nat, places as nat),
    ensures
        match payouts {
            Ok(payouts) => 0 < places <= players <= 100 && is_slot_payouts(
                payouts,
                players as nat,
                places as nat,
            ),
            Err(error) => !(0 < places <= players <= 100) && error is InvalidCounts,
        },
{
    if players == 0 || players > 100 || places == 0 || places > players {
        return Err(PayoutsError::InvalidCounts);
    }
    let percentages = get_percentage_weights(places);
    let outcomes = generate_ranking_permutations(players, places);
    let ghost possible = possible_outcomes(players as nat, places as nat);
    let mut attestations: BTreeMap<usize, PayoutWeights> = BTreeMap::new();
    let mut index: usize = 0;
    while index < outcomes.len()
        invariant
            0 < places <= players <= 100,
            places_weigh(players as nat, places as nat),
            index <= outcomes@.len(),
            ranking_views(outcomes@) == possible,
            possible == possible_outcomes(players as nat, places as nat),
            lists_rankings(
                all_rankings(players as nat, places as nat),
                players as nat,
                places as nat,
            ),
            percentages@ == self::percentages(places as nat),
            forall|i: usize| #[trigger] attestations@.contains_key(i) <==> i < index,
            forall|i: usize|
                i < index ==> (#[trigger] attestations@[i])@ == slot_weights(
                    players as nat,
                    places as nat,
                    possible[i as int],
                ),
        decreases outcomes@.len() - index,
    {
        let winners = &outcomes[index];
        assert(possible[index as int] == winners@);
        let weights = if winners.len() == players {
            equal_weights(players)
        } else {
            assert(index < possible.len() - 1) by {
                assert(everyone(players as nat).len() == players);
            }
            assert(possible[index as int] == all_rankings(players as nat, places as nat)[
                index as int
            ]);
            assert(is_ranking(winners@, players as nat, places as nat));
            place_winners(winners, &percentages).0
        };
        attestations.insert(index, weights);
        index = index + 1;
    }
    let expiry = equal_weights(players);
    Ok(OutcomePayouts { attestations, expiry: Some(expiry) })
}

/// The first player from the `from`th on who has the key.
pub open spec fn first_player(players: Seq<Player>, point: Seq<u8>, from: int) -> Option<usize>
    decreases players.len() - from,
{
    if from < 0 || from >= players.len() {
        None
    } else if players[from].pubkey@ == point {
        Some(from as usize)
    } else {
        first_player(players, point, from + 1)
    }
}

/// Why a key cannot be found among the players.
pub enum KeyFault {
    Invalid,
    Unknown,
}

/// The player who has the key that hexadecimal text stands for.
pub open spec fn player_of(players: Seq<Player>, key: Seq<char>) -> Result<usize, KeyFault> {
    match point_of_hex(key) {
        None => Err(KeyFault::Invalid),
        Some(point) => match first_player(players, point, 0) {
            None => Err(KeyFault::Unknown),
            Some(player) => Ok(player),
        },
    }
}

/// The players who have the keys, or the first key that nobody has.
pub open spec fn players_of(players: Seq<Player>, keys: Seq<Seq<char>>) -> Result<
    Seq<usize>,
    (int, KeyFault),
>
    decreases keys.len(),
{
    if keys.len() == 0 {
        Ok(Seq::empty())
    } else {
        match players_of(players, keys.drop_last()) {
            Err(fault) => Err(fault),
            Ok(found) => match player_of(players, keys.last()) {
                Ok(player) => Ok(found.push(player)),
                Err(fault) => Err((keys.len() - 1, fault)),
            },
        }
    }
}

/// The views of texts.
pub open spec fn text_views(texts: Seq<String>) -> Seq<Seq<char>> {
    texts.map_values(|text: String| text@)
}

/// The keys of the entries at the given indices.
pub fn find_winning_entries_pubkeys(entries: &Vec<UserEntry>, winning_entry_indices: &Vec<usize>) -> (
pubkeys: Vec<String>)
    requires
        forall|i: int|
            0 <= i < winning_entry_indices@.len() ==> (#[trigger] winning_entry_indices@[i])
                < entries@.len(),
    ensures
        text_views(pubkeys@) == winning_keys(entries@, winning_entry_indices@),
{
    let mut pubkeys: Vec<String> = Vec::new();
    let mut i: usize = 0;
    while i < winning_entry_indices.len()
        invariant
            i <= winning_entry_indices@.len(),
            forall|i: int|
                0 <= i < winning_entry_indices@.len() ==> (#[trigger] winning_entry_indices@[i])
                    < entries@.len(),
            pubkeys@.len() == i,
            forall|j: int|
                0 <= j < i ==> (#[trigger] pubkeys@[j])@
                    == entries@[winning_entry_indices@[j] as int].ephemeral_pubkey@,
        decreases winning_entry_indices@.len() - i,
    {
        pubkeys.push(entries[winning_entry_indices[i]].ephemeral_pubkey.clone());
        i = i + 1;
    }
    assert(text_views(pubkeys@) =~= winning_keys(entries@, winning_entry_indices@));
    pubkeys
}

/// The keys of the entries at the given indices.
pub open spec fn winning_keys(entries: Seq<UserEntry>, indices: Seq<usize>) -> Seq<Seq<char>> {
    indices.map_values(|index: usize| entries[index as int].ephemeral_pubkey@)
}

/// The player who has the key, given by its point.
fn position(players: &Vec<Player>, point: &Vec<u8>) -> (found: Option<usize>)
    ensures
        found == first_player(players@, point@, 0),
{
    let mut i: usize = 0;
    while i < players.len()
        invariant
            i <= players@.len(),
            first_player(players@, point@, 0) == first_player(players@, point@, i as int),
        decreases players@.len() - i,
    {
        if same_bytes(&players[i].pubkey, point) {
            return Some(i);
        }
        i = i + 1;
    }
    None
}

/// Whether two byte strings are the same.
pub(crate) fn same_bytes(a: &Vec<u8>, b: &Vec<u8>) -> (same: bool)
    ensures
        same == (a@ == b@),
{
    if a.len() != b.len() {
        return false;
    }
    let mut i: usize = 0;
    while i < a.len()
        invariant
            i <= a@.len(),
            a@.len() == b@.len(),
            forall|j: int| 0 <= j < i ==> a@[j] == b@[j],
        decreases a@.len() - i,
    {
        if a[i] != b[i] {
            return false;
        }
        i = i + 1;
    }
    assert(a@ =~= b@);
    true
}

/// The error is the fault of one of the keys.
pub open spec fn tells(error: PayoutsError, keys: Seq<Seq<char>>, fault: (int, KeyFault)) -> bool {
    match fault.1 {
        KeyFault::Invalid => error matches PayoutsError::InvalidKey(key) && key@ == keys[fault.0],
        KeyFault::Unknown => error matches PayoutsError::NoPlayer(key) && key@ == keys[fault.0],
    }
}

/// The players who have the keys.
pub fn find_player_indices(players: &Vec<Player>, entry_ticket_pubkeys: Vec<String>) -> (found:
    Result<Vec<usize>, PayoutsError>)
    ensures
        match players_of(players@, text_views(entry_ticket_pubkeys@)) {
            Ok(expected) => found matches Ok(indices) && indices@ == expected,
            Err(fault) => found matches Err(error) && tells(
                error,
                text_views(entry_ticket_pubkeys@),
                fault,
            ),
        },
{
    let ghost keys = text_views(entry_ticket_pubkeys@);
    let mut indices: Vec<usize> = Vec::new();
    let mut i: usize = 0;
    assert(keys.take(0) =~= Seq::empty());
    while i < entry_ticket_pubkeys.len()
        invariant
            i <= entry_ticket_pubkeys@.len(),
            keys == text_views(entry_ticket_pubkeys@),
            players_of(players@, keys.take(i as int)) == Ok::<Seq<usize>, (int, KeyFault)>(
                indices@,
            ),
        decreases entry_ticket_pubkeys@.len() - i,
    {
        let pubkey = &entry_ticket_pubkeys[i];
        proof {
            assert(keys.take(i + 1).drop_last() =~= keys.take(i as int));
            assert(keys.take(i + 1).last() == pubkey@);
        }
        match point_from_hex(pubkey.as_str()) {
            None => {
                proof {
                    fault_is_final(players@, keys, i + 1);
                }
                return Err(PayoutsError::InvalidKey(pubkey.clone()));
            },
            Some(point) => match position(players, &point) {
                None => {
                    proof {
                        fault_is_final(players@, keys, i + 1);
                    }
                    return Err(PayoutsError::NoPlayer(pubkey.clone()));
                },
                Some(index) => {
                    indices.push(index);
                },
            },
        }
        i = i + 1;
    }
    assert(keys.take(i as int) =~= keys);
    Ok(indices)
}

/// The first fault stays the first, whatever keys follow.
proof fn fault_is_final(players: Seq<Player>, keys: Seq<Seq<char>>, upto: int)
    requires
        0 <= upto <= keys.len(),
        players_of(players, keys.take(upto)) is Err,
    ensures
        players_of(players, keys) == players_of(players, keys.take(upto)),
    decreases keys.len() - upto,
{
    if upto < keys.len() {
        assert(keys.take(upto + 1).drop_last() =~= keys.take(upto));
        fault_is_final(players, keys, upto + 1);
    } else {
        assert(keys.take(upto) =~= keys);
    }
}

/// Why an outcome cannot be paid out.
pub enum OutcomeFault {
    Key(int, KeyFault),
    WinnerCount,
    TotalWeight,
}

/// What an outcome that pays `winners` weighs, where `entries` are in the order of their tickets
/// and the contract lists its players on its own.
pub open spec fn outcome_weights(
    entries: Seq<UserEntry>,
    players: Seq<Player>,
    places: nat,
    winners: Seq<usize>,
) -> Result<Map<usize, u64>, OutcomeFault> {
    if winners.len() == entries.len() {
        Ok(equal_share(players.len()))
    } else {
        match players_of(players, winning_keys(entries, winners)) {
            Err(fault) => Err(OutcomeFault::Key(fault.0, fault.1)),
            Ok(indices) => if indices.len() != places {
                Err(OutcomeFault::WinnerCount)
            } else {
                let weights = placed(indices, percentages(places), indices.len() as int);
                if total_weight(weights) != 100 {
                    Err(OutcomeFault::TotalWeight)
                } else {
                    Ok(weights)
                }
            },
        }
    }
}

/// The error is the fault of the outcome with this index.
pub open spec fn blames(
    error: PayoutsError,
    entries: Seq<UserEntry>,
    winners: Seq<usize>,
    index: int,
    fault: OutcomeFault,
) -> bool {
    match fault {
        OutcomeFault::Key(at, key_fault) => tells(
            error,
            winning_keys(entries, winners),
            (at, key_fault),
        ),
        OutcomeFault::WinnerCount => error == PayoutsError::WinnerCount(index as usize),
        OutcomeFault::TotalWeight => error == PayoutsError::TotalWeight(index as usize),
    }
}

/// As many players are found as there are keys.
proof fn players_of_all(players: Seq<Player>, keys: Seq<Seq<char>>)
    ensures
        players_of(players, keys) matches Ok(found) ==> found.len() == keys.len(),
    decreases keys.len(),
{
    if keys.len() > 0 {
        players_of_all(players, keys.drop_last());
    }
}

/// What one outcome weighs.
fn weigh_outcome(
    entries: &Vec<UserEntry>,
    players: &Vec<Player>,
    places: usize,
    winners: &Vec<usize>,
    index: usize,
) -> (weighed: Result<PayoutWeights, PayoutsError>)
    requires
        players@.len() > 0,
        places_weigh(entries@.len(), places as nat),
        winners@.len() == entries@.len() || is_ranking(winners@, entries@.len(), places as nat),
    ensures
        match outcome_weights(entries@, players@, places as nat, winners@) {
            Ok(weights) => weighed matches Ok(found) && found@ == weights,
            Err(fault) => weighed matches Err(error) && blames(
                error,
                entries@,
                winners@,
                index as int,
                fault,
            ),
        },
{
    if winners.len() == entries.len() {
        return Ok(equal_weights(players.len()));
    }
    proof {
        // More places than players cannot be ranked.
        if places > entries@.len() {
            too_few_players(winners@, entries@.len(), places as nat);
        }
    }
    let pubkeys = find_winning_entries_pubkeys(entries, winners);
    let indices = match find_player_indices(players, pubkeys) {
        Ok(indices) => indices,
        Err(error) => {
            return Err(error);
        },
    };
    proof {
        players_of_all(players@, winning_keys(entries@, winners@));
    }
    if indices.len() != places {
        return Err(PayoutsError::WinnerCount(index));
    }
    let percentages = get_percentage_weights(places);
    let (weights, total) = place_winners(&indices, &percentages);
    if total != 100 {
        return Err(PayoutsError::TotalWeight(index));
    }
    Ok(weights)
}

/// A ranking has no more places than there are players.
proof fn too_few_players(ranking: Seq<usize>, n: nat, k: nat)
    requires
        is_ranking(ranking, n, k),
    ensures
        k <= n,
{
    let players = Set::new(|p: usize| p < n);
    let ints = vstd::set_lib::set_int_range(0, n as int);
    vstd::set_lib::lemma_int_range(0, n as int);
    let ranked = ranking.map_values(|p: usize| p as int);
    assert(ranked.no_duplicates());
    ranked.unique_seq_to_set();
    assert(ranked.to_set().subset_of(ints));
    vstd::set_lib::lemma_len_subset(ranked.to_set(), ints);
}

/// The payouts of a contract: what each outcome weighs, and everyone an equal share at expiry.
pub open spec fn is_payouts(
    payouts: OutcomePayouts,
    entries: Seq<UserEntry>,
    players: Seq<Player>,
    places: nat,
) -> bool {
    let outcomes = possible_outcomes(entries.len(), places);
    &&& forall|i: usize| #[trigger] payouts.attestations@.contains_key(i) <==> i < outcomes.len()
    &&& forall|i: usize|
        i < outcomes.len() ==> outcome_weights(entries, players, places, outcomes[i as int]) == Ok::<
            Map<usize, u64>,
            OutcomeFault,
        >((#[trigger] payouts.attestations@[i])@)
    &&& payouts.expiry matches Some(expiry) && expiry@ == equal_share(players.len())
}

/// The first outcome that cannot be paid out is what the error tells of.
pub open spec fn cannot_be_paid(
    error: PayoutsError,
    entries: Seq<UserEntry>,
    players: Seq<Player>,
    places: nat,
) -> bool {
    let outcomes = possible_outcomes(entries.len(), places);
    exists|i: int|
        0 <= i < outcomes.len() && (forall|j: int|
            0 <= j < i ==> outcome_weights(entries, players, places, #[trigger] outcomes[j]) is Ok)
            && (outcome_weights(entries, players, places, #[trigger] outcomes[i]) matches Err(fault)
            && blames(error, entries, outcomes[i], i, fault))
}

/// What comes of making the payouts of a contract: the payouts, or the first outcome that cannot be
/// paid out.
pub open spec fn are_payouts(
    made: Result<OutcomePayouts, PayoutsError>,
    entries: Seq<UserEntry>,
    players: Seq<Player>,
    places: nat,
) -> bool {
    match made {
        Ok(payouts) => is_payouts(payouts, entries, players, places),
        Err(error) => cannot_be_paid(error, entries, players, places),
    }
}

/// The payouts of a contract whose players were listed on their own. The entries come back in the
/// order of their tickets, by which the outcomes count them. The first outcome that cannot be paid
/// out makes it fail.
pub fn generate_payouts(
    competition: &Competition,
    entries: &mut Vec<UserEntry>,
    players: &Vec<Player>,
) -> (payouts: Result<OutcomePayouts, PayoutsError>)
    requires
        players@.len() > 0,
        rankings_fit(
            old(entries)@.len(),
            competition.event_submission.number_of_places_win as nat,
        ),
        places_weigh(
            old(entries)@.len(),
            competition.event_submission.number_of_places_win as nat,
        ),
    ensures
        sorts_by_ticket(old(entries)@, final(entries)@),
        are_payouts(
            payouts,
            final(entries)@,
            players@,
            competition.event_submission.number_of_places_win as nat,
        ),
{
    sort_by_ticket(entries);
    let places: usize = competition.event_submission.number_of_places_win;
    let possible = generate_ranking_permutations(entries.len(), places);
    let ghost outcomes = possible_outcomes(entries@.len(), places as nat);
    let ghost n = entries@.len();
    let mut attestations: BTreeMap<usize, PayoutWeights> = BTreeMap::new();
    let mut index: usize = 0;
    while index < possible.len()
        invariant
            players@.len() > 0,
            sorts_by_ticket(old(entries)@, entries@),
            places == competition.event_submission.number_of_places_win,
            n == entries@.len(),
            places_weigh(n, places as nat),
            index <= possible@.len(),
            ranking_views(possible@) == outcomes,
            outcomes == possible_outcomes(n, places as nat),
            lists_rankings(all_rankings(n, places as nat), n, places as nat),
            forall|i: usize| #[trigger] attestations@.contains_key(i) <==> i < index,
            forall|i: usize|
                i < index ==> outcome_weights(
                    entries@,
                    players@,
                    places as nat,
                    outcomes[i as int],
                ) == Ok::<Map<usize, u64>, OutcomeFault>((#[trigger] attestations@[i])@),
            forall|j: int|
                0 <= j < index ==> outcome_weights(
                    entries@,
                    players@,
                    places as nat,
                    #[trigger] outcomes[j],
                ) is Ok,
        decreases possible@.len() - index,
    {
        let winners = &possible[index];
        assert(outcomes[index as int] == winners@);
        proof {
            if index < outcomes.len() - 1 {
                assert(outcomes[index as int] == all_rankings(n, places as nat)[index as int]);
            } else {
                assert(winners@ == everyone(n));
            }
        }
        match weigh_outcome(entries, players, places, winners, index) {
            Ok(weights) => {
                attestations.insert(index, weights);
            },
            Err(error) => {
                assert(outcome_weights(
                    entries@,
                    players@,
                    places as nat,
                    outcomes[index as int],
                ) is Err);
                return Err(error);
            },
        }
        index = index + 1;
    }
    let expiry = equal_weights(players.len());
    Ok(OutcomePayouts { attestations, expiry: Some(expiry) })
}

} // verus!
