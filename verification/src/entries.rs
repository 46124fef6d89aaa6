//! Entries and tickets, as they are stored.

use crate::clock::Timestamp;
use crate::competition::Uuid;
use crate::contract::SigMap;
use vstd::prelude::*;

verus! {

/// What a player expects at one station.
#[derive(Debug)]
pub struct WeatherChoices {
    pub stations: String,
    pub temp_high: Option<ValueOption>,
    pub temp_low: Option<ValueOption>,
    pub wind_speed: Option<ValueOption>,
}

/// How an observation compares with the forecast.
#[derive(Clone, Copy, PartialEq, Eq, Structural, Debug)]
pub enum ValueOption {
    Over,
    Par,
    Under,
}

/// What of an entry is sent to the oracle.
#[derive(Debug)]
pub struct AddEventEntry {
    pub id: Uuid,
    pub event_id: Uuid,
    pub expected_observations: Vec<WeatherChoices>,
}

/// What a player registers their entry key with Keymeld under. Keys and hashes are in hexadecimal.
#[derive(Debug)]
pub struct RegistrationContext {
    pub keygen_session_id: String,
    pub user_id: Uuid,
    pub manifest_hash: String,
    pub enclave_id: u32,
    pub enclave_key_epoch: u64,
    pub public_key: String,
    pub auth_pubkey: String,
    /// Each signature waits for the player.
    pub require_signing_approval: bool,
}

/// What a key is registered under, with its text as sequences.
pub struct RegistrationContextView {
    pub keygen_session_id: Seq<char>,
    pub user_id: Uuid,
    pub manifest_hash: Seq<char>,
    pub enclave_id: u32,
    pub enclave_key_epoch: u64,
    pub public_key: Seq<char>,
    pub auth_pubkey: Seq<char>,
    pub require_signing_approval: bool,
}

impl View for RegistrationContext {
    type V = RegistrationContextView;

    open spec fn view(&self) -> RegistrationContextView {
        RegistrationContextView {
            keygen_session_id: self.keygen_session_id@,
            user_id: self.user_id,
            manifest_hash: self.manifest_hash@,
            enclave_id: self.enclave_id,
            enclave_key_epoch: self.enclave_key_epoch,
            public_key: self.public_key@,
            auth_pubkey: self.auth_pubkey@,
            require_signing_approval: self.require_signing_approval,
        }
    }
}

impl RegistrationContext {
    /// The same once more.
    pub fn duplicate(&self) -> (copy: Self)
        ensures
            copy == *self,
    {
        RegistrationContext {
            keygen_session_id: self.keygen_session_id.clone(),
            user_id: self.user_id,
            manifest_hash: self.manifest_hash.clone(),
            enclave_id: self.enclave_id,
            enclave_key_epoch: self.enclave_key_epoch,
            public_key: self.public_key.clone(),
            auth_pubkey: self.auth_pubkey.clone(),
            require_signing_approval: self.require_signing_approval,
        }
    }

    /// Whether the other is the same.
    pub fn is_same(&self, other: &Self) -> (same: bool)
        ensures
            same == (self@ == other@),
    {
        self.keygen_session_id == other.keygen_session_id && self.user_id == other.user_id
            && self.manifest_hash == other.manifest_hash && self.enclave_id == other.enclave_id
            && self.enclave_key_epoch == other.enclave_key_epoch && self.public_key
            == other.public_key && self.auth_pubkey == other.auth_pubkey
            && self.require_signing_approval == other.require_signing_approval
    }
}

/// A stored entry of a player in a competition. Keys and hashes are in hexadecimal.
#[derive(Debug)]
pub struct UserEntry {
    pub id: Uuid,
    pub event_id: Uuid,
    pub ticket_id: Uuid,
    /// The player's public key.
    pub pubkey: String,
    /// The key that the player signs the contract with.
    pub ephemeral_pubkey: String,
    /// Its secret, once the player has given it up.
    pub ephemeral_privatekey: Option<String>,
    /// The hash that opens the player's payout.
    pub payout_hash: String,
    /// What opens it, once the player has given it up.
    pub payout_preimage: Option<String>,
    pub encrypted_keymeld_private_key: Option<String>,
    pub keymeld_auth_pubkey: Option<String>,
    pub keymeld_registration_context: Option<RegistrationContext>,
    pub public_nonces: Option<SigMap>,
    pub partial_signatures: Option<SigMap>,
    pub funding_psbt_base64: Option<String>,
    pub entry_submission: AddEventEntry,
    pub signed_at: Option<Timestamp>,
    pub paid_at: Option<Timestamp>,
    pub paid_out_at: Option<Timestamp>,
    pub sellback_broadcasted_at: Option<Timestamp>,
    pub reclaimed_broadcasted_at: Option<Timestamp>,
}

/// A stored ticket: the right to enter a competition. Keys and hashes are in hexadecimal.
#[derive(Debug)]
pub struct Ticket {
    pub id: Uuid,
    pub competition_id: Uuid,
    /// The entry that was made with it.
    pub entry_id: Option<Uuid>,
    /// The preimage that the coordinator reveals once the ticket is paid for.
    pub encrypted_preimage: String,
    /// Its hash, which is new with each reservation that is taken over.
    pub hash: String,
    /// The invoice that pays for it.
    pub payment_request: Option<String>,
    pub invoice_expires_at: Option<Timestamp>,
    pub expiry: Timestamp,
    /// The key that the ticket's escrow is locked with.
    pub ephemeral_pubkey: Option<String>,
    /// The player it is reserved for.
    pub reserved_by: Option<String>,
    pub reserved_at: Option<Timestamp>,
    pub paid_at: Option<Timestamp>,
    pub settled_at: Option<Timestamp>,
    /// The escrow transaction, in hexadecimal.
    pub escrow_transaction: Option<String>,
}

/// The entries are in the order of their tickets.
pub open spec fn in_ticket_order(entries: Seq<UserEntry>) -> bool {
    forall|i: int, j: int|
        0 <= i < j < entries.len() ==> (#[trigger] entries[i]).ticket_id <= (
        #[trigger] entries[j]).ticket_id
}

/// The entries that were made with a ticket, in order.
pub open spec fn with_ticket(entries: Seq<UserEntry>, ticket_id: Uuid) -> Seq<UserEntry> {
    entries.filter(|entry: UserEntry| entry.ticket_id == ticket_id)
}

/// `after` is `before` in the order of the tickets; entries with one ticket keep their order.
pub open spec fn sorts_by_ticket(before: Seq<UserEntry>, after: Seq<UserEntry>) -> bool {
    &&& in_ticket_order(after)
    &&& after.len() == before.len()
    &&& forall|ticket_id: Uuid| #[trigger]
        with_ticket(after, ticket_id) == with_ticket(before, ticket_id)
}

/// Put entries in the order of their tickets, which is the order in which the oracle and Keymeld
/// count the players.
pub fn sort_by_ticket(entries: &mut Vec<UserEntry>)
    ensures
        sorts_by_ticket(old(entries)@, final(entries)@),
{
    let mut i: usize = 0;
    while i < entries.len()
        invariant
            i <= entries@.len(),
            entries@.len() == old(entries)@.len(),
            in_ticket_order(entries@.take(i as int)),
            forall|ticket_id: Uuid| #[trigger]
                with_ticket(entries@, ticket_id) == with_ticket(old(entries)@, ticket_id),
        decreases entries@.len() - i,
    {
        let ticket_id: Uuid = entries[i].ticket_id;
        let mut at: usize = i;
        while at > 0 && entries[at - 1].ticket_id > ticket_id
            invariant
                at <= i < entries@.len(),
                in_ticket_order(entries@.take(i as int)),
                forall|j: int| at <= j < i ==> (#[trigger] entries@[j]).ticket_id > ticket_id,
            decreases at,
        {
            at = at - 1;
        }
        let ghost before = entries@;
        let entry = entries.remove(i);
        entries.insert(at, entry);
        proof {
            let after = entries@;
            assert(after =~= before.remove(i as int).insert(at as int, before[i as int]));
            let sorted = before.take(i as int);
            assert forall|j: int| 0 <= j < at implies (#[trigger] before[j]).ticket_id
                <= ticket_id by {
                assert(sorted[j] == before[j]);
                assert(sorted[at - 1] == before[at - 1]);
            }
            assert forall|a: int, b: int| 0 <= a < b < i + 1 implies (#[trigger] after.take(
                i + 1,
            )[a]).ticket_id <= (#[trigger] after.take(i + 1)[b]).ticket_id by {
                let from_a = if a < at {
                    a
                } else if a == at {
                    i as int
                } else {
                    a - 1
                };
                let from_b = if b < at {
                    b
                } else if b == at {
                    i as int
                } else {
                    b - 1
                };
                assert(after[a] == before[from_a]);
                assert(after[b] == before[from_b]);
                if from_a < i && from_b < i {
                    assert(sorted[from_a] == before[from_a]);
                    assert(sorted[from_b] == before[from_b]);
                }
            }
            assert forall|t: Uuid| #[trigger] with_ticket(after, t) == with_ticket(
                old(entries)@,
                t,
            ) by {
                moving_forward_keeps_tickets(before, i as int, at as int, t);
                assert(with_ticket(before, t) == with_ticket(old(entries)@, t));
            }
        }
        i = i + 1;
    }
    assert(entries@.take(i as int) =~= entries@);
}

/// Moving an entry forward over entries with other tickets keeps each ticket's entries in order.
proof fn moving_forward_keeps_tickets(entries: Seq<UserEntry>, from: int, to: int, ticket_id: Uuid)
    requires
        0 <= to <= from < entries.len(),
        forall|j: int|
            to <= j < from ==> (#[trigger] entries[j]).ticket_id > entries[from].ticket_id,
    ensures
        with_ticket(entries.remove(from).insert(to, entries[from]), ticket_id) == with_ticket(
            entries,
            ticket_id,
        ),
{
    let pred = |entry: UserEntry| entry.ticket_id == ticket_id;
    let head = entries.take(to);
    let mid = entries.subrange(to, from);
    let one = seq![entries[from]];
    let tail = entries.skip(from + 1);
    let moved = entries.remove(from).insert(to, entries[from]);
    assert(entries =~= head + (mid + (one + tail)));
    assert(moved =~= head + (one + (mid + tail)));
    Seq::filter_distributes_over_add(head, mid + (one + tail), pred);
    Seq::filter_distributes_over_add(mid, one + tail, pred);
    Seq::filter_distributes_over_add(one, tail, pred);
    Seq::filter_distributes_over_add(head, one + (mid + tail), pred);
    Seq::filter_distributes_over_add(one, mid + tail, pred);
    Seq::filter_distributes_over_add(mid, tail, pred);
    let fm = mid.filter(pred);
    let fo = one.filter(pred);
    let ft = tail.filter(pred);
    if entries[from].ticket_id == ticket_id {
        none_pass(mid, pred);
        assert(fm =~= Seq::empty());
        assert(fm + (fo + ft) =~= fo + (fm + ft));
    } else {
        none_pass(one, pred);
        assert(fo =~= Seq::empty());
        assert(fm + (fo + ft) =~= fo + (fm + ft));
    }
}

/// Where nothing passes, the filtered sequence is empty.
proof fn none_pass(entries: Seq<UserEntry>, pred: spec_fn(UserEntry) -> bool)
    requires
        forall|i: int| 0 <= i < entries.len() ==> !pred(#[trigger] entries[i]),
    ensures
        entries.filter(pred).len() == 0,
    decreases entries.len(),
{
    reveal(Seq::filter);
    if entries.len() > 0 {
        none_pass(entries.drop_last(), pred);
    }
}

/// Entries in the order of their tickets are in that order once: sorting them again changes nothing.
pub proof fn sorted_entries_stay(before: Seq<UserEntry>, after: Seq<UserEntry>)
    requires
        in_ticket_order(before),
        sorts_by_ticket(before, after),
    ensures
        after == before,
    decreases before.len(),
{
    if before.len() > 0 {
        last_of_its_ticket(before);
        last_of_its_ticket(after);
        let (t, u) = (before.last().ticket_id, after.last().ticket_id);
        assert(with_ticket(after, t) == with_ticket(before, t));
        assert(with_ticket(after, u) == with_ticket(before, u));
        if u > t {
            none_pass(before, |entry: UserEntry| entry.ticket_id == u);
        }
        if t > u {
            none_pass(after, |entry: UserEntry| entry.ticket_id == t);
        }
        assert(before.last() == after.last());
        assert forall|ticket_id: Uuid| #[trigger]
            with_ticket(after.drop_last(), ticket_id) == with_ticket(
                before.drop_last(),
                ticket_id,
            ) by {
            assert(with_ticket(after, ticket_id) == with_ticket(before, ticket_id));
            without_the_last(before, ticket_id);
            without_the_last(after, ticket_id);
        }
        sorted_entries_stay(before.drop_last(), after.drop_last());
        assert(before =~= before.drop_last().push(before.last()));
        assert(after =~= after.drop_last().push(after.last()));
    }
}

/// The last entry is the last with its ticket.
proof fn last_of_its_ticket(entries: Seq<UserEntry>)
    requires
        entries.len() > 0,
    ensures
        with_ticket(entries, entries.last().ticket_id).len() > 0,
        with_ticket(entries, entries.last().ticket_id).last() == entries.last(),
{
    reveal(Seq::filter);
}

/// Without the last entry, the ticket that it was made with has one entry less.
proof fn without_the_last(entries: Seq<UserEntry>, ticket_id: Uuid)
    requires
        entries.len() > 0,
    ensures
        with_ticket(entries.drop_last(), ticket_id) == if entries.last().ticket_id == ticket_id {
            with_ticket(entries, ticket_id).drop_last()
        } else {
            with_ticket(entries, ticket_id)
        },
{
    reveal(Seq::filter);
    let kept = with_ticket(entries.drop_last(), ticket_id);
    assert(kept.push(entries.last()).drop_last() =~= kept);
}

/// Sorting loses no entry.
pub proof fn sorting_keeps_entries(before: Seq<UserEntry>, after: Seq<UserEntry>, entry: UserEntry)
    requires
        sorts_by_ticket(before, after),
        before.contains(entry),
    ensures
        after.contains(entry),
{
    let pred = |other: UserEntry| other.ticket_id == entry.ticket_id;
    let i = choose|i: int| 0 <= i < before.len() && before[i] == entry;
    before.lemma_filter_contains(pred, i);
    assert(with_ticket(after, entry.ticket_id) == with_ticket(before, entry.ticket_id));
    after.lemma_filter_contains_rev(pred, entry);
}

} // verus!
