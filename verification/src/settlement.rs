//! Settling a funded contract: what the oracle's attestation decides, and which transactions
//! follow from it.

use crate::clock::Timestamp;
use crate::competition::{Competition, Uuid};
use crate::contract::{
    ContractParameters, EventAnnouncement, Outcome, PayoutWeights, Player,
};
use crate::encoding::{base_point_mul, point_from_hex, point_of_hex, public_point};
use crate::entries::UserEntry;
use crate::payouts::same_bytes;
use vstd::prelude::*;
use vstd::std_specs::cmp::OrdSpec;
use vstd::std_specs::iter::IteratorSpec;

verus! {

broadcast use vstd::std_specs::btree::group_btree_axioms;

/// Why a contract cannot be settled further.
#[derive(Clone, Copy, PartialEq, Eq, Structural, Debug)]
pub enum SettlementError {
    NoSignedContract,
    NoOutcomeBroadcast,
    NoOutcomeTransaction,
    NoAttestation,
    NoAnnouncement,
    /// The attestation unlocks none of the event's outcomes.
    UnknownOutcome,
    /// The outcome is not one of those that were announced.
    InvalidOutcome,
    /// The contract expired, where an attested outcome was expected.
    UnexpectedExpiry,
    /// The contract pays nothing for the outcome.
    NoPayout,
    /// The chain's tip is below the block that holds the outcome transaction.
    TipBehindOutcome,
    /// None of the winners has an entry.
    NoWinnerEntry,
    /// The winner whose ticket unlocks the split has none.
    NoTicket,
    /// The contract has no expiry transaction.
    NoExpiryTransaction,
    /// The contract has no such transaction, or no such output to spend.
    NotBuilt,
    /// The ticket's preimage cannot be read.
    InvalidTicketPreimage,
    /// The key that the winner gave up cannot be read.
    InvalidWinnerKey,
    /// The fee is more than what is to be swept.
    FeeNotCovered,
    /// The contract's keys do not sign the transaction.
    NotSigned,
}

/// How many confirmations a transaction has that is in the block at `inclusion_height`, where the
/// chain's tip is at `tip`.
pub open spec fn depth(tip: nat, inclusion_height: nat) -> nat {
    if tip < inclusion_height || tip - inclusion_height + 1 > u32::MAX {
        0
    } else {
        (tip - inclusion_height + 1) as nat
    }
}

/// How many confirmations a transaction has that is in the block at `inclusion_height`, where the
/// chain's tip is at `tip`. The block that holds it counts as the first.
pub fn confirmation_depth(tip: u32, inclusion_height: u32) -> (confirmations: u32)
    ensures
        confirmations == depth(tip as nat, inclusion_height as nat),
{
    match tip.checked_sub(inclusion_height) {
        Some(blocks) => match blocks.checked_add(1) {
            Some(confirmations) => confirmations,
            None => 0,
        },
        None => 0,
    }
}

/// The first outcome from the `from`th on that a point unlocks.
pub open spec fn unlocked(points: Seq<Vec<u8>>, point: Seq<u8>, from: int) -> Option<usize>
    decreases points.len() - from,
{
    if from < 0 || from >= points.len() {
        None
    } else if points[from]@ == point {
        Some(from as usize)
    } else {
        unlocked(points, point, from + 1)
    }
}

/// The outcome that an attestation unlocks.
pub open spec fn attested_outcome(event: EventAnnouncement, attestation: Seq<u8>) -> Option<usize> {
    match public_point(attestation) {
        Some(point) => unlocked(event.locking_points@, point, 0),
        None => None,
    }
}

/// The outcome that an attestation unlocks: the first whose locking point is the attestation's.
pub fn verify_event_attestation(event: &EventAnnouncement, attestation: &Vec<u8>) -> (outcome: Option<
    usize,
>)
    ensures
        outcome == attested_outcome(*event, attestation@),
        outcome matches Some(index) ==> index < event.locking_points@.len(),
{
    let point = base_point_mul(attestation)?;
    let mut i: usize = 0;
    while i < event.locking_points.len()
        invariant
            i <= event.locking_points@.len(),
            public_point(attestation@) == Some(point@),
            unlocked(event.locking_points@, point@, 0) == unlocked(
                event.locking_points@,
                point@,
                i as int,
            ),
        decreases event.locking_points@.len() - i,
    {
        if same_bytes(&event.locking_points[i], &point) {
            return Some(i);
        }
        i = i + 1;
    }
    None
}

/// How a competition was decided: by the attestation, or without one by the contract's expiry.
pub open spec fn current_outcome(competition: Competition) -> Result<Outcome, SettlementError> {
    match competition.attestation {
        Some(attestation) => match competition.event_announcement {
            None => Err(SettlementError::NoAnnouncement),
            Some(event) => match attested_outcome(event, attestation@) {
                Some(index) => Ok(Outcome::Attestation(index)),
                None => Err(SettlementError::UnknownOutcome),
            },
        },
        None => if competition.expiry_broadcasted_at is Some {
            Ok(Outcome::Expiry)
        } else {
            Err(SettlementError::NoAttestation)
        },
    }
}

/// How a competition was decided.
pub fn get_current_outcome(competition: &Competition) -> (outcome: Result<
    Outcome,
    SettlementError,
>)
    ensures
        outcome == current_outcome(*competition),
{
    match &competition.attestation {
        Some(attestation) => match &competition.event_announcement {
            None => Err(SettlementError::NoAnnouncement),
            Some(event) => match verify_event_attestation(event, attestation) {
                Some(index) => Ok(Outcome::Attestation(index)),
                None => Err(SettlementError::UnknownOutcome),
            },
        },
        None => if competition.expiry_broadcasted_at.is_some() {
            Ok(Outcome::Expiry)
        } else {
            Err(SettlementError::NoAttestation)
        },
    }
}

/// The keys of `weights` in ascending order.
pub open spec fn ascending_keys(keys: Seq<usize>, weights: Map<usize, u64>) -> bool {
    &&& forall|i: int, j: int|
        0 <= i < j < keys.len() ==> (#[trigger] keys[i]) < (#[trigger] keys[j])
    &&& forall|p: usize| keys.contains(p) <==> #[trigger] weights.contains_key(p)
}

/// The players that an outcome pays, the lowest first.
pub open spec fn winners_of(weights: Map<usize, u64>) -> Seq<usize> {
    choose|keys: Seq<usize>| ascending_keys(keys, weights)
}

/// There is only one ascending sequence of the keys.
pub proof fn keys_ascend_one_way(keys: Seq<usize>, weights: Map<usize, u64>)
    requires
        ascending_keys(keys, weights),
    ensures
        winners_of(weights) == keys,
{
    let other = winners_of(weights);
    assert(ascending_keys(other, weights));
    assert forall|p: usize| keys.contains(p) == other.contains(p) by {
        let pays = weights.contains_key(p);
        assert(keys.contains(p) == pays);
        assert(other.contains(p) == pays);
    }
    ascending_keys_agree(other, keys);
}

/// Two ascending sequences of the same numbers are the same.
proof fn ascending_keys_agree(a: Seq<usize>, b: Seq<usize>)
    requires
        forall|i: int, j: int| 0 <= i < j < a.len() ==> (#[trigger] a[i]) < (#[trigger] a[j]),
        forall|i: int, j: int| 0 <= i < j < b.len() ==> (#[trigger] b[i]) < (#[trigger] b[j]),
        forall|p: usize| a.contains(p) == b.contains(p),
    ensures
        a == b,
    decreases a.len(),
{
    if a.len() == 0 {
        if b.len() > 0 {
            assert(b.contains(b[0]));
        }
        assert(a =~= b);
    } else {
        assert(a.contains(a[0]));
        assert(b.contains(a[0]));
        assert(b.contains(b[0]));
        assert(a.contains(b[0]));
        let j = choose|j: int| 0 <= j < b.len() && b[j] == a[0];
        let i = choose|i: int| 0 <= i < a.len() && a[i] == b[0];
        assert(a[0] == b[0]);
        let rest_a = a.drop_first();
        let rest_b = b.drop_first();
        assert forall|p: usize| rest_a.contains(p) == rest_b.contains(p) by {
            rest_of_keys(a, p);
            rest_of_keys(b, p);
        }
        ascending_keys_agree(rest_a, rest_b);
        assert(a =~= seq![a[0]] + rest_a);
        assert(b =~= seq![b[0]] + rest_b);
    }
}

/// What ascending numbers hold after the first is what they hold but for the first.
proof fn rest_of_keys(a: Seq<usize>, p: usize)
    requires
        a.len() > 0,
        forall|i: int, j: int| 0 <= i < j < a.len() ==> (#[trigger] a[i]) < (#[trigger] a[j]),
    ensures
        a.drop_first().contains(p) == (a.contains(p) && p != a[0]),
{
    let rest = a.drop_first();
    if rest.contains(p) {
        let i = choose|i: int| 0 <= i < rest.len() && rest[i] == p;
        assert(a[i + 1] == p);
        assert(a[0] < a[i + 1]);
    }
    if a.contains(p) && p != a[0] {
        let i = choose|i: int| 0 <= i < a.len() && a[i] == p;
        assert(rest[i - 1] == p);
    }
}

/// The players that an outcome pays, the lowest first.
pub fn winner_indices(weights: &PayoutWeights) -> (winners: Vec<usize>)
    ensures
        winners@ == winners_of(weights@),
        ascending_keys(winners@, weights@),
{
    let mut winners: Vec<usize> = Vec::new();
    let pairs = weights.iter();
    let ghost all = pairs.remaining();
    let ghost keys = all.map_values(|kv: (&usize, &u64)| *kv.0);
    assert(vstd::std_specs::btree::increasing_seq(keys));
    for pair in iter: pairs
        invariant
            iter.seq() == all,
            winners@.len() == iter.index(),
            forall|i: int| 0 <= i < winners@.len() ==> winners@[i] == *all[i].0,
    {
        winners.push(*pair.0);
    }
    proof {
        assert(winners@ =~= keys);
        assert forall|i: int, j: int| 0 <= i < j < winners@.len() implies (#[trigger] winners@[i])
            < (#[trigger] winners@[j]) by {
            assert(keys[i].cmp_spec(&keys[j]) is Less);
        }
        assert forall|p: usize| winners@.contains(p) <==> #[trigger] weights@.contains_key(p) by {
            if winners@.contains(p) {
                let i = choose|i: int| 0 <= i < winners@.len() && winners@[i] == p;
                assert(weights@.contains_key(*all[i].0));
            }
            if weights@.contains_key(p) {
                assert(all.contains((&p, &weights@[p])));
                let i = choose|i: int| 0 <= i < all.len() && all[i] == (&p, &weights@[p]);
                assert(winners@[i] == p);
            }
        }
        keys_ascend_one_way(winners@, weights@);
    }
    winners
}

/// A winner of a decided contract, and the entry that they won with.
#[derive(Clone, Copy, PartialEq, Eq, Structural, Debug)]
pub struct Winner {
    pub player_index: usize,
    pub entry_index: usize,
    pub entry_id: Uuid,
    pub ticket_id: Uuid,
}

/// The entry was made with the player's key.
pub open spec fn plays(entry: UserEntry, players: Seq<Player>, player_index: usize) -> bool {
    &&& player_index < players.len()
    &&& point_of_hex(entry.ephemeral_pubkey@) == Some(players[player_index as int].pubkey@)
}

/// The first entry from the `from`th on that was made with the player's key.
pub open spec fn entry_of(
    entries: Seq<UserEntry>,
    players: Seq<Player>,
    player_index: usize,
    from: int,
) -> Option<usize>
    decreases entries.len() - from,
{
    if from < 0 || from >= entries.len() {
        None
    } else if plays(entries[from], players, player_index) {
        Some(from as usize)
    } else {
        entry_of(entries, players, player_index, from + 1)
    }
}

/// A winner, with the entry at this index.
pub open spec fn winner_at(entries: Seq<UserEntry>, player_index: usize, at: usize) -> Winner {
    Winner {
        player_index,
        entry_index: at,
        entry_id: entries[at as int].id,
        ticket_id: entries[at as int].ticket_id,
    }
}

/// The winner was paid over Lightning and gave up their key, and their share is not closed yet.
pub open spec fn sold_back(entry: UserEntry) -> bool {
    entry.paid_out_at is Some && entry.ephemeral_privatekey is Some
        && entry.sellback_broadcasted_at is None
}

/// Of `winners`, those that were paid over Lightning and are not closed yet, in order.
pub open spec fn paid_winners(
    entries: Seq<UserEntry>,
    players: Seq<Player>,
    winners: Seq<usize>,
) -> Seq<Winner>
    decreases winners.len(),
{
    if winners.len() == 0 {
        Seq::empty()
    } else {
        let earlier = paid_winners(entries, players, winners.drop_last());
        match entry_of(entries, players, winners.last(), 0) {
            Some(at) => if sold_back(entries[at as int]) {
                earlier.push(winner_at(entries, winners.last(), at))
            } else {
                earlier
            },
            None => earlier,
        }
    }
}

/// The first of `winners` from the `from`th on who has an entry.
pub open spec fn first_with_entry(
    entries: Seq<UserEntry>,
    players: Seq<Player>,
    winners: Seq<usize>,
    from: int,
) -> Option<Winner>
    decreases winners.len() - from,
{
    if from < 0 || from >= winners.len() {
        None
    } else {
        match entry_of(entries, players, winners[from], 0) {
            Some(at) => Some(winner_at(entries, winners[from], at)),
            None => first_with_entry(entries, players, winners, from + 1),
        }
    }
}

/// Of `winners`, those who were neither paid nor closed nor reclaimed from, in order.
pub open spec fn unclaimed_winners(
    entries: Seq<UserEntry>,
    players: Seq<Player>,
    winners: Seq<usize>,
) -> Seq<Winner>
    decreases winners.len(),
{
    if winners.len() == 0 {
        Seq::empty()
    } else {
        let earlier = unclaimed_winners(entries, players, winners.drop_last());
        match entry_of(entries, players, winners.last(), 0) {
            Some(at) => if entries[at as int].reclaimed_broadcasted_at is None && entries[
                at as int
            ].paid_out_at is None && entries[at as int].sellback_broadcasted_at is None {
                earlier.push(winner_at(entries, winners.last(), at))
            } else {
                earlier
            },
            None => earlier,
        }
    }
}

/// The first entry that was made with the player's key.
fn find_entry(entries: &Vec<UserEntry>, players: &Vec<Player>, player_index: usize) -> (found: Option<
    usize,
>)
    ensures
        found == entry_of(entries@, players@, player_index, 0),
        found matches Some(at) ==> at < entries@.len(),
{
    let mut i: usize = 0;
    while i < entries.len()
        invariant
            i <= entries@.len(),
            entry_of(entries@, players@, player_index, 0) == entry_of(
                entries@,
                players@,
                player_index,
                i as int,
            ),
        decreases entries@.len() - i,
    {
        if player_index < players.len() {
            if let Some(point) = point_from_hex(entries[i].ephemeral_pubkey.as_str()) {
                if same_bytes(&point, &players[player_index].pubkey) {
                    return Some(i);
                }
            }
        }
        i = i + 1;
    }
    None
}

/// Of `winners`, those that were paid over Lightning and are not closed yet.
fn find_paid_winners(
    entries: &Vec<UserEntry>,
    players: &Vec<Player>,
    winners: &Vec<usize>,
) -> (paid: Vec<Winner>)
    ensures
        paid@ == paid_winners(entries@, players@, winners@),
        paid@.len() <= winners@.len(),
{
    let mut paid: Vec<Winner> = Vec::new();
    let mut i: usize = 0;
    assert(winners@.take(0) =~= Seq::empty());
    while i < winners.len()
        invariant
            i <= winners@.len(),
            paid@ == paid_winners(entries@, players@, winners@.take(i as int)),
            paid@.len() <= i,
        decreases winners@.len() - i,
    {
        assert(winners@.take(i + 1).drop_last() =~= winners@.take(i as int));
        let player_index: usize = winners[i];
        if let Some(at) = find_entry(entries, players, player_index) {
            let entry = &entries[at];
            if entry.paid_out_at.is_some() && entry.ephemeral_privatekey.is_some()
                && entry.sellback_broadcasted_at.is_none() {
                paid.push(
                    Winner {
                        player_index,
                        entry_index: at,
                        entry_id: entry.id,
                        ticket_id: entry.ticket_id,
                    },
                );
            }
        }
        i = i + 1;
    }
    assert(winners@.take(i as int) =~= winners@);
    paid
}

/// The first of `winners` who has an entry.
fn find_first_with_entry(
    entries: &Vec<UserEntry>,
    players: &Vec<Player>,
    winners: &Vec<usize>,
) -> (found: Option<Winner>)
    ensures
        found == first_with_entry(entries@, players@, winners@, 0),
{
    let mut i: usize = 0;
    while i < winners.len()
        invariant
            i <= winners@.len(),
            first_with_entry(entries@, players@, winners@, 0) == first_with_entry(
                entries@,
                players@,
                winners@,
                i as int,
            ),
        decreases winners@.len() - i,
    {
        if let Some(at) = find_entry(entries, players, winners[i]) {
            return Some(
                Winner {
                    player_index: winners[i],
                    entry_index: at,
                    entry_id: entries[at].id,
                    ticket_id: entries[at].ticket_id,
                },
            );
        }
        i = i + 1;
    }
    None
}

/// How deep a relative timelock's transaction is, and how many blocks it still waits for.
#[derive(Debug)]
pub enum Maturity {
    /// Not in a block yet.
    Unconfirmed,
    /// So many blocks are still missing.
    Missing(u32),
    /// Over, since so many blocks.
    Over(u32),
}

/// Whether `required` blocks have passed since the outcome transaction confirmed.
pub open spec fn maturity(
    current_height: u32,
    outcome_height: Option<u32>,
    required: int,
) -> Result<Maturity, SettlementError> {
    match outcome_height {
        None => Ok(Maturity::Unconfirmed),
        Some(height) => if current_height < height {
            Err(SettlementError::TipBehindOutcome)
        } else if current_height - height < required {
            Ok(Maturity::Missing((required - (current_height - height)) as u32))
        } else {
            Ok(Maturity::Over((current_height - height) as u32))
        },
    }
}

/// Whether `required` blocks have passed since the outcome transaction confirmed.
fn check_maturity(current_height: u32, outcome_height: Option<u32>, required: u32) -> (matured: Result<
    Maturity,
    SettlementError,
>)
    ensures
        matured == maturity(current_height, outcome_height, required as int),
{
    match outcome_height {
        None => Ok(Maturity::Unconfirmed),
        Some(height) => match current_height.checked_sub(height) {
            None => Err(SettlementError::TipBehindOutcome),
            Some(blocks) => if blocks < required {
                Ok(Maturity::Missing(required - blocks))
            } else {
                Ok(Maturity::Over(blocks))
            },
        },
    }
}

/// What to broadcast after an outcome transaction.
#[derive(Debug)]
pub enum DeltaPlan {
    /// The outcome transaction is not in a block yet.
    Unconfirmed,
    /// So many blocks are still missing.
    Wait(u32),
    /// Every winner was paid: close the whole outcome with their keys, unless that was broadcast
    /// already, and mark their entries closed.
    Close { broadcast: bool, winners: Vec<Winner> },
    /// Not every winner was paid: split the outcome with the ticket preimage of `split_with`,
    /// unless that was broadcast already, and close the shares of those who were.
    Split { split_with: Option<Winner>, closes: Vec<Winner> },
}

/// What to broadcast after an outcome transaction.
pub enum DeltaChoice {
    Unconfirmed,
    Wait(u32),
    Close(bool, Seq<Winner>),
    Split(Option<Winner>, Seq<Winner>),
}

impl View for DeltaPlan {
    type V = DeltaChoice;

    open spec fn view(&self) -> DeltaChoice {
        match *self {
            DeltaPlan::Unconfirmed => DeltaChoice::Unconfirmed,
            DeltaPlan::Wait(blocks) => DeltaChoice::Wait(blocks),
            DeltaPlan::Close { broadcast, winners } => DeltaChoice::Close(broadcast, winners@),
            DeltaPlan::Split { split_with, closes } => DeltaChoice::Split(split_with, closes@),
        }
    }
}

/// What to broadcast for a decided contract whose timelock is over since `blocks` blocks. As long
/// as not every winner was paid over Lightning, the timelock is waited for twice, to give the
/// others more time to be paid that way.
pub open spec fn delta_of(
    params: ContractParameters,
    weights: Map<usize, u64>,
    entries: Seq<UserEntry>,
    delta_broadcasted: bool,
    blocks: u32,
) -> Result<DeltaChoice, SettlementError> {
    let winners = winners_of(weights);
    let paid = paid_winners(entries, params.players@, winners);
    let twice = 2 * params.relative_locktime_block_delta as int;
    if paid.len() == winners.len() {
        Ok(DeltaChoice::Close(!delta_broadcasted, paid))
    } else if blocks < twice {
        Ok(DeltaChoice::Wait((twice - blocks) as u32))
    } else if delta_broadcasted {
        Ok(DeltaChoice::Split(None, paid))
    } else if paid.len() > 0 {
        Ok(DeltaChoice::Split(Some(paid[0]), paid))
    } else {
        match first_with_entry(entries, params.players@, winners, 0) {
            Some(winner) => Ok(DeltaChoice::Split(Some(winner), paid)),
            None => Err(SettlementError::NoWinnerEntry),
        }
    }
}

/// What to broadcast after an outcome transaction.
pub open spec fn delta_choice(
    competition: Competition,
    current_height: u32,
    outcome_height: Option<u32>,
    entries: Seq<UserEntry>,
) -> Result<DeltaChoice, SettlementError> {
    if competition.signed_contract is None {
        Err(SettlementError::NoSignedContract)
    } else if competition.outcome_broadcasted_at is None {
        Err(SettlementError::NoOutcomeBroadcast)
    } else if competition.outcome_transaction is None {
        Err(SettlementError::NoOutcomeTransaction)
    } else {
        let params = (competition.signed_contract->0).params;
        match maturity(
            current_height,
            outcome_height,
            params.relative_locktime_block_delta as int,
        ) {
            Err(error) => Err(error),
            Ok(Maturity::Unconfirmed) => Ok(DeltaChoice::Unconfirmed),
            Ok(Maturity::Missing(missing)) => Ok(DeltaChoice::Wait(missing)),
            Ok(Maturity::Over(blocks)) => match current_outcome(competition) {
                Err(error) => Err(error),
                Ok(outcome) => match params.outcome_payouts.weights(outcome) {
                    None => Err(SettlementError::NoPayout),
                    Some(weights) => delta_of(
                        params,
                        weights,
                        entries,
                        competition.delta_broadcasted_at is Some,
                        blocks,
                    ),
                },
            },
        }
    }
}

/// What to broadcast for a decided contract whose timelock is over since `blocks` blocks.
fn plan_delta_of(
    params: &ContractParameters,
    weights: &PayoutWeights,
    entries: &Vec<UserEntry>,
    delta_broadcasted: bool,
    blocks: u32,
) -> (plan: Result<DeltaPlan, SettlementError>)
    ensures
        match delta_of(*params, weights@, entries@, delta_broadcasted, blocks) {
            Ok(choice) => plan matches Ok(planned) && planned@ == choice,
            Err(error) => plan matches Err(told) && told == error,
        },
{
    let winners = winner_indices(weights);
    let paid = find_paid_winners(entries, &params.players, &winners);
    let twice: u32 = 2 * params.relative_locktime_block_delta as u32;
    if paid.len() == winners.len() {
        return Ok(DeltaPlan::Close { broadcast: !delta_broadcasted, winners: paid });
    }
    if blocks < twice {
        return Ok(DeltaPlan::Wait(twice - blocks));
    }
    if delta_broadcasted {
        return Ok(DeltaPlan::Split { split_with: None, closes: paid });
    }
    if paid.len() > 0 {
        return Ok(DeltaPlan::Split { split_with: Some(paid[0]), closes: paid });
    }
    match find_first_with_entry(entries, &params.players, &winners) {
        Some(winner) => Ok(DeltaPlan::Split { split_with: Some(winner), closes: paid }),
        None => Err(SettlementError::NoWinnerEntry),
    }
}

/// What to broadcast after an outcome transaction: nothing until its relative timelock is over;
/// then the transaction that closes the whole outcome if every winner was paid over Lightning, and
/// otherwise, once the timelock has passed twice, the one that splits it and those that close the
/// shares of the winners who were.
pub fn plan_delta_transactions(
    competition: &Competition,
    current_height: u32,
    outcome_height: Option<u32>,
    entries: &Vec<UserEntry>,
) -> (plan: Result<DeltaPlan, SettlementError>)
    ensures
        match delta_choice(*competition, current_height, outcome_height, entries@) {
            Ok(choice) => plan matches Ok(planned) && planned@ == choice,
            Err(error) => plan matches Err(told) && told == error,
        },
{
    let signed_contract = match &competition.signed_contract {
        Some(signed_contract) => signed_contract,
        None => {
            return Err(SettlementError::NoSignedContract);
        },
    };
    if competition.outcome_broadcasted_at.is_none() {
        return Err(SettlementError::NoOutcomeBroadcast);
    }
    if competition.outcome_transaction.is_none() {
        return Err(SettlementError::NoOutcomeTransaction);
    }
    let params = &signed_contract.params;
    let blocks: u32 = match check_maturity(
        current_height,
        outcome_height,
        params.relative_locktime_block_delta as u32,
    ) {
        Err(error) => {
            return Err(error);
        },
        Ok(Maturity::Unconfirmed) => {
            return Ok(DeltaPlan::Unconfirmed);
        },
        Ok(Maturity::Missing(missing)) => {
            return Ok(DeltaPlan::Wait(missing));
        },
        Ok(Maturity::Over(blocks)) => blocks,
    };
    let outcome = match get_current_outcome(competition) {
        Ok(outcome) => outcome,
        Err(error) => {
            return Err(error);
        },
    };
    match params.outcome_payouts.get(outcome) {
        None => Err(SettlementError::NoPayout),
        Some(weights) => plan_delta_of(
            params,
            weights,
            entries,
            competition.delta_broadcasted_at.is_some(),
            blocks,
        ),
    }
}

/// The first delta transactions were broadcast.
pub fn delta_was_broadcast(competition: &mut Competition, now: Timestamp)
    ensures
        *final(competition) == (Competition {
            delta_broadcasted_at: Some(now),
            ..*old(competition)
        }),
{
    competition.delta_broadcasted_at = Some(now);
}

/// What to reclaim from a settled contract.
#[derive(Debug)]
pub enum ReclaimPlan {
    /// The outcome transaction is not in a block yet.
    Unconfirmed,
    /// So many blocks are still missing.
    Wait(u32),
    /// Reclaim these winners' shares and mark their entries; the competition is then completed.
    Reclaim(Vec<Winner>),
}

/// What to reclaim from a settled contract.
pub enum ReclaimChoice {
    Unconfirmed,
    Wait(u32),
    Reclaim(Seq<Winner>),
}

impl View for ReclaimPlan {
    type V = ReclaimChoice;

    open spec fn view(&self) -> ReclaimChoice {
        match *self {
            ReclaimPlan::Unconfirmed => ReclaimChoice::Unconfirmed,
            ReclaimPlan::Wait(blocks) => ReclaimChoice::Wait(blocks),
            ReclaimPlan::Reclaim(winners) => ReclaimChoice::Reclaim(winners@),
        }
    }
}

/// What to reclaim from a settled contract.
pub open spec fn reclaim_choice(
    competition: Competition,
    current_height: u32,
    outcome_height: Option<u32>,
    entries: Seq<UserEntry>,
) -> Result<ReclaimChoice, SettlementError> {
    if competition.signed_contract is None {
        Err(SettlementError::NoSignedContract)
    } else if competition.outcome_transaction is None {
        Err(SettlementError::NoOutcomeTransaction)
    } else if competition.outcome_broadcasted_at is None {
        Err(SettlementError::NoOutcomeBroadcast)
    } else {
        let params = (competition.signed_contract->0).params;
        match maturity(
            current_height,
            outcome_height,
            2 * params.relative_locktime_block_delta as int,
        ) {
            Err(error) => Err(error),
            Ok(Maturity::Unconfirmed) => Ok(ReclaimChoice::Unconfirmed),
            Ok(Maturity::Missing(missing)) => Ok(ReclaimChoice::Wait(missing)),
            Ok(Maturity::Over(_)) => match current_outcome(competition) {
                Err(error) => Err(error),
                Ok(outcome) => match params.outcome_payouts.weights(outcome) {
                    None => Err(SettlementError::NoPayout),
                    Some(weights) => Ok(
                        ReclaimChoice::Reclaim(
                            unclaimed_winners(entries, params.players@, winners_of(weights)),
                        ),
                    ),
                },
            },
        }
    }
}

/// Of `winners`, those who were neither paid nor closed nor reclaimed from.
fn find_unclaimed_winners(
    entries: &Vec<UserEntry>,
    players: &Vec<Player>,
    winners: &Vec<usize>,
) -> (unclaimed: Vec<Winner>)
    ensures
        unclaimed@ == unclaimed_winners(entries@, players@, winners@),
{
    let mut unclaimed: Vec<Winner> = Vec::new();
    let mut i: usize = 0;
    assert(winners@.take(0) =~= Seq::empty());
    while i < winners.len()
        invariant
            i <= winners@.len(),
            unclaimed@ == unclaimed_winners(entries@, players@, winners@.take(i as int)),
        decreases winners@.len() - i,
    {
        assert(winners@.take(i + 1).drop_last() =~= winners@.take(i as int));
        let player_index: usize = winners[i];
        if let Some(at) = find_entry(entries, players, player_index) {
            let entry = &entries[at];
            if entry.reclaimed_broadcasted_at.is_none() && entry.paid_out_at.is_none()
                && entry.sellback_broadcasted_at.is_none() {
                unclaimed.push(
                    Winner {
                        player_index,
                        entry_index: at,
                        entry_id: entry.id,
                        ticket_id: entry.ticket_id,
                    },
                );
            }
        }
        i = i + 1;
    }
    assert(winners@.take(i as int) =~= winners@);
    unclaimed
}

/// What to reclaim from a settled contract: once the timelock has passed twice, the shares of the
/// winners who were neither paid nor closed.
pub fn plan_delta2_transactions(
    competition: &Competition,
    current_height: u32,
    outcome_height: Option<u32>,
    entries: &Vec<UserEntry>,
) -> (plan: Result<ReclaimPlan, SettlementError>)
    ensures
        match reclaim_choice(*competition, current_height, outcome_height, entries@) {
            Ok(choice) => plan matches Ok(planned) && planned@ == choice,
            Err(error) => plan matches Err(told) && told == error,
        },
{
    let signed_contract = match &competition.signed_contract {
        Some(signed_contract) => signed_contract,
        None => {
            return Err(SettlementError::NoSignedContract);
        },
    };
    if competition.outcome_transaction.is_none() {
        return Err(SettlementError::NoOutcomeTransaction);
    }
    if competition.outcome_broadcasted_at.is_none() {
        return Err(SettlementError::NoOutcomeBroadcast);
    }
    let params = &signed_contract.params;
    match check_maturity(
        current_height,
        outcome_height,
        2 * params.relative_locktime_block_delta as u32,
    ) {
        Err(error) => {
            return Err(error);
        },
        Ok(Maturity::Unconfirmed) => {
            return Ok(ReclaimPlan::Unconfirmed);
        },
        Ok(Maturity::Missing(missing)) => {
            return Ok(ReclaimPlan::Wait(missing));
        },
        Ok(Maturity::Over(_)) => {},
    }
    let outcome = match get_current_outcome(competition) {
        Ok(outcome) => outcome,
        Err(error) => {
            return Err(error);
        },
    };
    match params.outcome_payouts.get(outcome) {
        None => Err(SettlementError::NoPayout),
        Some(weights) => {
            let winners = winner_indices(weights);
            Ok(ReclaimPlan::Reclaim(find_unclaimed_winners(entries, &params.players, &winners)))
        },
    }
}

/// Everything that could be reclaimed was: the competition is completed.
pub fn reclaims_were_broadcast(competition: &mut Competition, now: Timestamp)
    ensures
        final(competition).errors@.len() == 0,
        *final(competition) == (Competition {
            completed_at: Some(now),
            errors: final(competition).errors,
            ..*old(competition)
        }),
{
    competition.completed_at = Some(now);
    competition.errors = Vec::new();
}

} // verus!
