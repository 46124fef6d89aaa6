//! The parts of a ticketed contract that the competition's rules read.

use crate::encoding::copy_bytes;
use std::collections::BTreeMap;
use vstd::prelude::*;
use vstd::std_specs::iter::IteratorSpec;

verus! {

broadcast use vstd::std_specs::btree::group_btree_axioms;

/// A transaction's id: its 32 bytes in the order in which they are hashed.
pub type Txid = Vec<u8>;

/// One output of a transaction.
#[derive(Debug)]
pub struct OutPoint {
    pub txid: Txid,
    pub vout: u32,
}

/// A transaction in its consensus encoding.
#[derive(Debug)]
pub struct Transaction {
    pub raw: Vec<u8>,
}

/// What the oracle announced for an event: the point that each outcome's attestation unlocks, in
/// the order of the outcomes, and when the contract expires if nothing is attested.
#[derive(Debug)]
pub struct EventAnnouncement {
    pub locking_points: Vec<Vec<u8>>,
    pub expiry: Option<u32>,
}

/// A player's share of the pot, by player index, out of the sum of the weights.
pub type PayoutWeights = BTreeMap<usize, u64>;

/// The payout of each outcome, by the index of what the oracle attests to, and when the contract
/// expires without an attestation.
#[derive(Debug)]
pub struct OutcomePayouts {
    pub attestations: BTreeMap<usize, PayoutWeights>,
    pub expiry: Option<PayoutWeights>,
}

/// Which way a contract was decided.
#[derive(Clone, Copy, PartialEq, Eq, Structural, Debug)]
pub enum Outcome {
    Attestation(usize),
    Expiry,
}

impl OutcomePayouts {
    /// The payout of an outcome, where the contract has one.
    pub open spec fn weights(self, outcome: Outcome) -> Option<Map<usize, u64>> {
        match outcome {
            Outcome::Attestation(index) => if self.attestations@.contains_key(index) {
                Some(self.attestations@[index]@)
            } else {
                None
            },
            Outcome::Expiry => match self.expiry {
                Some(weights) => Some(weights@),
                None => None,
            },
        }
    }

    /// The payout of an outcome, where the contract has one.
    pub fn get(&self, outcome: Outcome) -> (weights: Option<&PayoutWeights>)
        ensures
            match self.weights(outcome) {
                Some(expected) => weights matches Some(found) && found@ == expected,
                None => weights is None,
            },
    {
        match outcome {
            Outcome::Attestation(index) => self.attestations.get(&index),
            Outcome::Expiry => self.expiry.as_ref(),
        }
    }
}

/// A player of the contract: the compressed key they sign with, the hash that their ticket's
/// preimage opens, and the hash that their payout's preimage opens.
#[derive(Debug)]
pub struct Player {
    pub pubkey: Vec<u8>,
    pub ticket_hash: Vec<u8>,
    pub payout_hash: Vec<u8>,
}

/// The terms of a contract. `fee_rate` is in satoshis per 1000 weight units.
#[derive(Debug)]
pub struct ContractParameters {
    pub market_maker: Vec<u8>,
    pub players: Vec<Player>,
    pub event: EventAnnouncement,
    pub outcome_payouts: OutcomePayouts,
    pub fee_rate: u64,
    pub funding_value: u64,
    pub relative_locktime_block_delta: u16,
}

/// The same weights once more.
fn copy_weights(weights: &PayoutWeights) -> (copy: PayoutWeights)
    ensures
        copy@ == weights@,
{
    let mut copy: PayoutWeights = BTreeMap::new();
    let pairs = weights.iter();
    let ghost all = pairs.remaining();
    for pair in iter: pairs
        invariant
            iter.seq() == all,
            forall|i: int|
                0 <= i < all.len() ==> weights@.contains_pair(
                    *(#[trigger] all[i]).0,
                    *all[i].1,
                ),
            copy@.submap_of(weights@),
            forall|i: int| 0 <= i < iter.index() ==> copy@.contains_key(*(#[trigger] all[i]).0),
    {
        copy.insert(*pair.0, *pair.1);
    }
    proof {
        assert forall|p: usize| #[trigger] weights@.contains_key(p) implies copy@.contains_key(p) by {
            assert(all.contains((&p, &weights@[p])));
            let i = choose|i: int| 0 <= i < all.len() && all[i] == (&p, &weights@[p]);
            assert(*all[i].0 == p);
        }
        assert(copy@ =~= weights@);
    }
    copy
}

/// The payouts of the attested outcomes, as a map of maps.
pub open spec fn attestations_view(attestations: BTreeMap<usize, PayoutWeights>) -> Map<
    usize,
    Map<usize, u64>,
> {
    attestations@.map_values(|weights: PayoutWeights| weights@)
}

/// The payout of the expiry, as a map.
pub open spec fn expiry_view(expiry: Option<PayoutWeights>) -> Option<Map<usize, u64>> {
    match expiry {
        Some(weights) => Some(weights@),
        None => None,
    }
}

/// The same payouts once more.
fn copy_attestations(attestations: &BTreeMap<usize, PayoutWeights>) -> (copy: BTreeMap<
    usize,
    PayoutWeights,
>)
    ensures
        attestations_view(copy) == attestations_view(*attestations),
{
    let mut copy: BTreeMap<usize, PayoutWeights> = BTreeMap::new();
    let pairs = attestations.iter();
    let ghost all = pairs.remaining();
    for pair in iter: pairs
        invariant
            iter.seq() == all,
            forall|i: int|
                0 <= i < all.len() ==> attestations@.contains_pair(
                    *(#[trigger] all[i]).0,
                    *all[i].1,
                ),
            forall|p: usize| #[trigger]
                copy@.contains_key(p) ==> attestations@.contains_key(p) && copy@[p]@
                    == attestations@[p]@,
            forall|i: int| 0 <= i < iter.index() ==> copy@.contains_key(*(#[trigger] all[i]).0),
    {
        copy.insert(*pair.0, copy_weights(pair.1));
    }
    proof {
        assert forall|p: usize| #[trigger] attestations@.contains_key(p) implies copy@.contains_key(
            p,
        ) by {
            assert(all.contains((&p, &attestations@[p])));
            let i = choose|i: int| 0 <= i < all.len() && all[i] == (&p, &attestations@[p]);
            assert(*all[i].0 == p);
        }
        assert(attestations_view(copy) =~= attestations_view(*attestations));
    }
    copy
}

/// A player, with their key and hashes as sequences of bytes.
pub open spec fn player_view(player: Player) -> (Seq<u8>, Seq<u8>, Seq<u8>) {
    (player.pubkey@, player.ticket_hash@, player.payout_hash@)
}

/// The players, with their keys and hashes as sequences of bytes.
pub open spec fn players_view(players: Seq<Player>) -> Seq<(Seq<u8>, Seq<u8>, Seq<u8>)> {
    players.map_values(|player: Player| player_view(player))
}

/// The points, as sequences of bytes.
pub open spec fn points_view(points: Seq<Vec<u8>>) -> Seq<Seq<u8>> {
    points.map_values(|point: Vec<u8>| point@)
}

impl ContractParameters {
    /// The other has the same terms.
    pub open spec fn same_terms(self, other: ContractParameters) -> bool {
        &&& self.market_maker@ == other.market_maker@
        &&& players_view(self.players@) == players_view(other.players@)
        &&& points_view(self.event.locking_points@) == points_view(other.event.locking_points@)
        &&& self.event.expiry == other.event.expiry
        &&& attestations_view(self.outcome_payouts.attestations) == attestations_view(
            other.outcome_payouts.attestations,
        )
        &&& expiry_view(self.outcome_payouts.expiry) == expiry_view(other.outcome_payouts.expiry)
        &&& self.fee_rate == other.fee_rate
        &&& self.funding_value == other.funding_value
        &&& self.relative_locktime_block_delta == other.relative_locktime_block_delta
    }

    /// The same terms once more.
    pub fn duplicate(&self) -> (copy: Self)
        ensures
            copy.same_terms(*self),
    {
        let mut players: Vec<Player> = Vec::new();
        let mut i: usize = 0;
        while i < self.players.len()
            invariant
                i <= self.players@.len(),
                players@.len() == i,
                forall|j: int|
                    0 <= j < i ==> player_view(#[trigger] players@[j]) == player_view(
                        self.players@[j],
                    ),
            decreases self.players@.len() - i,
        {
            let player = &self.players[i];
            players.push(
                Player {
                    pubkey: copy_bytes(&player.pubkey),
                    ticket_hash: copy_bytes(&player.ticket_hash),
                    payout_hash: copy_bytes(&player.payout_hash),
                },
            );
            i = i + 1;
        }
        assert(players_view(players@) =~= players_view(self.players@));
        let mut locking_points: Vec<Vec<u8>> = Vec::new();
        let mut j: usize = 0;
        while j < self.event.locking_points.len()
            invariant
                j <= self.event.locking_points@.len(),
                locking_points@.len() == j,
                forall|k: int|
                    0 <= k < j ==> (#[trigger] locking_points@[k])@
                        == self.event.locking_points@[k]@,
            decreases self.event.locking_points@.len() - j,
        {
            locking_points.push(copy_bytes(&self.event.locking_points[j]));
            j = j + 1;
        }
        assert(points_view(locking_points@) =~= points_view(self.event.locking_points@));
        let expiry = match &self.outcome_payouts.expiry {
            Some(weights) => Some(copy_weights(weights)),
            None => None,
        };
        ContractParameters {
            market_maker: copy_bytes(&self.market_maker),
            players,
            event: EventAnnouncement { locking_points, expiry: self.event.expiry },
            outcome_payouts: OutcomePayouts {
                attestations: copy_attestations(&self.outcome_payouts.attestations),
                expiry,
            },
            fee_rate: self.fee_rate,
            funding_value: self.funding_value,
            relative_locktime_block_delta: self.relative_locktime_block_delta,
        }
    }
}

impl OutPoint {
    /// The same output once more.
    pub fn duplicate(&self) -> (copy: Self)
        ensures
            copy.txid@ == self.txid@,
            copy.vout == self.vout,
    {
        OutPoint { txid: copy_bytes(&self.txid), vout: self.vout }
    }
}

/// Nonces or partial signatures for every transaction of a contract, as the text that they are
/// stored in. Where Keymeld keeps them there are none.
#[derive(Debug)]
pub enum SigMap {
    Empty,
    Stored(String),
}

/// A fully signed contract: its terms, the output that funds it, and its encoding.
#[derive(Debug)]
pub struct SignedContract {
    pub params: ContractParameters,
    pub funding_outpoint: OutPoint,
    pub encoded: String,
}

} // verus!
