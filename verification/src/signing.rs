//! Signing a competition's contract.

use crate::clock::Timestamp;
use crate::competition::{Competition, Uuid};
use crate::contract::{OutPoint, SigMap, SignedContract};
use crate::encoding::{point_from_hex, point_of_hex, sha256, sha256_digest};
use crate::entries::UserEntry;
use crate::lifecycle::Coordinator;
use crate::payouts::same_bytes;
use vstd::prelude::*;

verus! {

/// Why a contract, or the transaction that funds it, cannot be signed.
#[derive(Clone, Copy, PartialEq, Eq, Structural, Debug)]
pub enum SigningError {
    NoParameters,
    NoOutpoint,
    NoNonces,
    NoPartialSignatures,
    /// The contract's terms cannot be written.
    InvalidTerms,
    /// No contract can be built of the terms on the output that funds it.
    InvalidContract,
    /// The coordinator cannot sign the contract with its key.
    NoSession,
    /// The nonces that were sent do not aggregate.
    NotAggregated,
    /// The partial signatures do not combine to a contract.
    NotCombined,
    /// Keymeld's signatures are missing.
    NoKeymeldSignatures,
    /// Keymeld's signatures are not valid ones of the contract.
    InvalidKeymeldSignatures,
    /// The nonces that are derived again are not those that were published.
    NonceMismatch,
    /// The partial signatures that are made again are not those that were kept.
    PartialSignatureMismatch,
    /// An entry's key is no point.
    InvalidEntryKey(Uuid),
    /// So many entries were expected to have sent theirs; so many different ones did.
    Missing { expected: usize, got: usize },
    /// A player's partial signatures do not verify.
    InvalidSignatures(usize),
    NoFundingPsbt,
    /// A partially signed transaction cannot be read.
    InvalidPsbt,
    NotEnoughSignatures,
    /// Some inputs of the funding transaction are not signed.
    UnsignedInputs,
    /// The funding transaction could not be finalised.
    NotFinalized,
    /// The finalised funding transaction holds no transaction that can be broadcast.
    NotExtracted,
}

/// How a contract is signed.
#[derive(Clone, Copy, PartialEq, Eq, Structural, Debug)]
pub enum SigningPath {
    /// Keymeld makes every signature, once the roster is checked.
    Keymeld,
    /// The coordinator aggregates the players' partial signatures with its own.
    Aggregate,
}

impl Coordinator {
    /// How the contract of a competition is signed, or why it cannot be.
    pub open spec fn signing_path_of(self, competition: Competition) -> Result<
        SigningPath,
        SigningError,
    > {
        if competition.contract_parameters is None {
            Err(SigningError::NoParameters)
        } else if competition.funding_outpoint is None {
            Err(SigningError::NoOutpoint)
        } else if self.keymeld_enabled {
            Ok(SigningPath::Keymeld)
        } else if competition.partial_signatures is None {
            Err(SigningError::NoPartialSignatures)
        } else if competition.public_nonces is None {
            Err(SigningError::NoNonces)
        } else {
            Ok(SigningPath::Aggregate)
        }
    }

    /// How the contract of a competition is signed, or why it cannot be.
    pub fn signing_path(&self, competition: &Competition) -> (path: Result<
        SigningPath,
        SigningError,
    >)
        ensures
            path == self.signing_path_of(*competition),
    {
        if competition.contract_parameters.is_none() {
            return Err(SigningError::NoParameters);
        }
        if competition.funding_outpoint.is_none() {
            return Err(SigningError::NoOutpoint);
        }
        if self.keymeld_enabled {
            return Ok(SigningPath::Keymeld);
        }
        if competition.partial_signatures.is_none() {
            return Err(SigningError::NoPartialSignatures);
        }
        if competition.public_nonces.is_none() {
            return Err(SigningError::NoNonces);
        }
        Ok(SigningPath::Aggregate)
    }

    /// How the nonces of a competition are aggregated, or why they cannot be.
    pub open spec fn aggregation_path_of(self, competition: Competition) -> Result<
        SigningPath,
        SigningError,
    > {
        if self.keymeld_enabled {
            Ok(SigningPath::Keymeld)
        } else if competition.contract_parameters is None {
            Err(SigningError::NoParameters)
        } else if competition.funding_outpoint is None {
            Err(SigningError::NoOutpoint)
        } else if competition.public_nonces is None {
            Err(SigningError::NoNonces)
        } else {
            Ok(SigningPath::Aggregate)
        }
    }

    /// How the nonces of a competition are aggregated, or why they cannot be. Keymeld aggregates
    /// them itself.
    pub fn aggregation_path(&self, competition: &Competition) -> (path: Result<
        SigningPath,
        SigningError,
    >)
        ensures
            path == self.aggregation_path_of(*competition),
    {
        if self.keymeld_enabled {
            return Ok(SigningPath::Keymeld);
        }
        if competition.contract_parameters.is_none() {
            return Err(SigningError::NoParameters);
        }
        if competition.funding_outpoint.is_none() {
            return Err(SigningError::NoOutpoint);
        }
        if competition.public_nonces.is_none() {
            return Err(SigningError::NoNonces);
        }
        Ok(SigningPath::Aggregate)
    }
}

/// What is kept, or else what is new.
pub open spec fn kept_or(kept: Option<SigMap>, new: SigMap) -> Option<SigMap> {
    match kept {
        Some(kept) => Some(kept),
        None => Some(new),
    }
}

/// The nonces are aggregated and the coordinator's partial signatures are made: those that were
/// made first are kept, since a nonce must only ever sign once, and the errors start afresh.
pub fn nonces_were_aggregated(
    competition: &mut Competition,
    aggregated_nonces: SigMap,
    partial_signatures: SigMap,
)
    ensures
        final(competition).errors@.len() == 0,
        *final(competition) == (Competition {
            aggregated_nonces: kept_or(old(competition).aggregated_nonces, aggregated_nonces),
            partial_signatures: kept_or(old(competition).partial_signatures, partial_signatures),
            errors: final(competition).errors,
            ..*old(competition)
        }),
{
    if competition.aggregated_nonces.is_none() {
        competition.aggregated_nonces = Some(aggregated_nonces);
    }
    if competition.partial_signatures.is_none() {
        competition.partial_signatures = Some(partial_signatures);
    }
    competition.errors = Vec::new();
}

/// The contract is signed: the one that was signed first is kept, and the errors start afresh.
pub fn contract_was_signed(competition: &mut Competition, signed: SignedContract, now: Timestamp)
    ensures
        final(competition).errors@.len() == 0,
        old(competition).signed_contract is None ==> *final(competition) == (Competition {
            signed_contract: Some(signed),
            signed_at: Some(now),
            errors: final(competition).errors,
            ..*old(competition)
        }),
        old(competition).signed_contract is Some ==> *final(competition) == (Competition {
            errors: final(competition).errors,
            ..*old(competition)
        }),
{
    if competition.signed_contract.is_none() {
        competition.signed_contract = Some(signed);
        competition.signed_at = Some(now);
    }
    competition.errors = Vec::new();
}

/// The entry sent its nonces.
pub open spec fn sent_nonces(entry: UserEntry) -> bool {
    entry.public_nonces is Some
}

/// The entry sent its partial signatures and its signed funding transaction.
pub open spec fn sent_signatures(entry: UserEntry) -> bool {
    entry.partial_signatures is Some && entry.funding_psbt_base64 is Some && entry.signed_at
        is Some
}

/// The points under which entries sent something, each once, in the order in which they first
/// come, and the last entry that sent something under each; or the first entry whose key is none.
pub open spec fn senders(entries: Seq<UserEntry>, sent: spec_fn(UserEntry) -> bool) -> Result<
    Seq<(Seq<u8>, int)>,
    SigningError,
>
    decreases entries.len(),
{
    if entries.len() == 0 {
        Ok(Seq::empty())
    } else {
        let last = entries.last();
        match senders(entries.drop_last(), sent) {
            Err(error) => Err(error),
            Ok(earlier) => if !sent(last) {
                Ok(earlier)
            } else {
                match point_of_hex(last.ephemeral_pubkey@) {
                    None => Err(SigningError::InvalidEntryKey(last.id)),
                    Some(point) => Ok(replace_sender(earlier, point, entries.len() - 1, 0)),
                }
            },
        }
    }
}

/// `earlier`, with the sender under `point` now `at`, from the `from`th on.
pub open spec fn replace_sender(
    earlier: Seq<(Seq<u8>, int)>,
    point: Seq<u8>,
    at: int,
    from: int,
) -> Seq<(Seq<u8>, int)>
    decreases earlier.len() - from,
{
    if from < 0 || from >= earlier.len() {
        earlier.push((point, at))
    } else if earlier[from].0 == point {
        earlier.update(from, (point, at))
    } else {
        replace_sender(earlier, point, at, from + 1)
    }
}

/// One who sent something: the point of their key, and the index of their entry.
#[derive(Debug)]
pub struct Sender {
    pub point: Vec<u8>,
    pub entry_index: usize,
}

/// The senders, with their points as sequences of bytes.
pub open spec fn senders_view(senders: Seq<Sender>) -> Seq<(Seq<u8>, int)> {
    senders.map_values(|sender: Sender| (sender.point@, sender.entry_index as int))
}

/// Every entry sent something, each under a key of its own.
pub open spec fn all_sent(entries: Seq<UserEntry>, sent: spec_fn(UserEntry) -> bool) -> Result<
    Seq<(Seq<u8>, int)>,
    SigningError,
> {
    match senders(entries, sent) {
        Err(error) => Err(error),
        Ok(found) => if found.len() == entries.len() {
            Ok(found)
        } else {
            Err(
                SigningError::Missing {
                    expected: entries.len() as usize,
                    got: found.len() as usize,
                },
            )
        },
    }
}

/// Enter a sender, in place of an earlier one under the same key.
fn enter_sender(found: &mut Vec<Sender>, point: Vec<u8>, entry_index: usize)
    ensures
        senders_view(final(found)@) == replace_sender(
            senders_view(old(found)@),
            point@,
            entry_index as int,
            0,
        ),
        final(found)@.len() <= old(found)@.len() + 1,
{
    let ghost earlier = senders_view(found@);
    let mut i: usize = 0;
    while i < found.len()
        invariant
            i <= found@.len(),
            found@ == old(found)@,
            earlier == senders_view(found@),
            replace_sender(earlier, point@, entry_index as int, 0) == replace_sender(
                earlier,
                point@,
                entry_index as int,
                i as int,
            ),
        decreases found@.len() - i,
    {
        if same_bytes(&found[i].point, &point) {
            let ghost entered = (point@, entry_index as int);
            found.set(i, Sender { point, entry_index });
            assert(senders_view(found@) =~= earlier.update(i as int, entered));
            return;
        }
        i = i + 1;
    }
    let ghost entered = (point@, entry_index as int);
    found.push(Sender { point, entry_index });
    assert(senders_view(found@) =~= earlier.push(entered));
}

/// The first error stays the first, whatever entries follow.
proof fn sender_fault_is_final(
    entries: Seq<UserEntry>,
    sent: spec_fn(UserEntry) -> bool,
    upto: int,
)
    requires
        0 <= upto <= entries.len(),
        senders(entries.take(upto), sent) is Err,
    ensures
        senders(entries, sent) == senders(entries.take(upto), sent),
    decreases entries.len() - upto,
{
    if upto < entries.len() {
        assert(entries.take(upto + 1).drop_last() =~= entries.take(upto));
        sender_fault_is_final(entries, sent, upto + 1);
    } else {
        assert(entries.take(upto) =~= entries);
    }
}

/// Whose nonces to aggregate: every entry's, each under a key of its own.
pub fn get_received_nonces(entries: &Vec<UserEntry>) -> (received: Result<
    Vec<Sender>,
    SigningError,
>)
    ensures
        match all_sent(entries@, |entry: UserEntry| sent_nonces(entry)) {
            Ok(expected) => received matches Ok(found) && senders_view(found@) == expected,
            Err(error) => received matches Err(told) && told == error,
        },
{
    let ghost sent = |entry: UserEntry| sent_nonces(entry);
    let mut found: Vec<Sender> = Vec::new();
    let mut i: usize = 0;
    assert(entries@.take(0) =~= Seq::empty());
    assert(senders_view(found@) =~= Seq::empty());
    while i < entries.len()
        invariant
            i <= entries@.len(),
            sent == (|entry: UserEntry| sent_nonces(entry)),
            senders(entries@.take(i as int), sent) == Ok::<Seq<(Seq<u8>, int)>, SigningError>(
                senders_view(found@),
            ),
        decreases entries@.len() - i,
    {
        assert(entries@.take(i + 1).drop_last() =~= entries@.take(i as int));
        let entry = &entries[i];
        if entry.public_nonces.is_some() {
            match point_from_hex(entry.ephemeral_pubkey.as_str()) {
                Some(point) => {
                    enter_sender(&mut found, point, i);
                },
                None => {
                    proof {
                        sender_fault_is_final(entries@, sent, i + 1);
                    }
                    return Err(SigningError::InvalidEntryKey(entry.id));
                },
            }
        }
        i = i + 1;
    }
    assert(entries@.take(i as int) =~= entries@);
    if found.len() != entries.len() {
        return Err(SigningError::Missing { expected: entries.len(), got: found.len() });
    }
    Ok(found)
}

/// Whose signatures to combine: every entry's, each under a key of its own.
pub fn get_final_sigs_by_sender(entries: &Vec<UserEntry>) -> (received: Result<
    Vec<Sender>,
    SigningError,
>)
    ensures
        match all_sent(entries@, |entry: UserEntry| sent_signatures(entry)) {
            Ok(expected) => received matches Ok(found) && senders_view(found@) == expected,
            Err(error) => received matches Err(told) && told == error,
        },
{
    let ghost sent = |entry: UserEntry| sent_signatures(entry);
    let mut found: Vec<Sender> = Vec::new();
    let mut i: usize = 0;
    assert(entries@.take(0) =~= Seq::empty());
    assert(senders_view(found@) =~= Seq::empty());
    while i < entries.len()
        invariant
            i <= entries@.len(),
            sent == (|entry: UserEntry| sent_signatures(entry)),
            senders(entries@.take(i as int), sent) == Ok::<Seq<(Seq<u8>, int)>, SigningError>(
                senders_view(found@),
            ),
        decreases entries@.len() - i,
    {
        assert(entries@.take(i + 1).drop_last() =~= entries@.take(i as int));
        let entry = &entries[i];
        if entry.partial_signatures.is_some() && entry.funding_psbt_base64.is_some()
            && entry.signed_at.is_some() {
            match point_from_hex(entry.ephemeral_pubkey.as_str()) {
                Some(point) => {
                    enter_sender(&mut found, point, i);
                },
                None => {
                    proof {
                        sender_fault_is_final(entries@, sent, i + 1);
                    }
                    return Err(SigningError::InvalidEntryKey(entry.id));
                },
            }
        }
        i = i + 1;
    }
    assert(entries@.take(i as int) =~= entries@);
    if found.len() != entries.len() {
        return Err(SigningError::Missing { expected: entries.len(), got: found.len() });
    }
    Ok(found)
}

/// Those who sent something are entries that did.
pub(crate) proof fn senders_have_sent(entries: Seq<UserEntry>, sent: spec_fn(UserEntry) -> bool)
    requires
        senders(entries, sent) is Ok,
    ensures
        forall|i: int|
            0 <= i < senders(entries, sent)->Ok_0.len() ==> {
                let at = (#[trigger] senders(entries, sent)->Ok_0[i]).1;
                0 <= at < entries.len() && sent(entries[at])
            },
    decreases entries.len(),
{
    if entries.len() > 0 {
        let earlier = entries.drop_last();
        senders_have_sent(earlier, sent);
        let before = senders(earlier, sent)->Ok_0;
        let after = senders(entries, sent)->Ok_0;
        if sent(entries.last()) {
            let point = point_of_hex(entries.last().ephemeral_pubkey@)->0;
            replacing_changes_one(before, point, entries.len() - 1, 0);
        }
        assert forall|i: int| 0 <= i < after.len() implies {
            let at = (#[trigger] after[i]).1;
            0 <= at < entries.len() && sent(entries[at])
        } by {
            if i < before.len() && after[i] == before[i] {
                assert(entries[before[i].1] == earlier[before[i].1]);
            }
        }
    }
}

/// Entering a sender changes no other.
proof fn replacing_changes_one(earlier: Seq<(Seq<u8>, int)>, point: Seq<u8>, at: int, from: int)
    requires
        0 <= from <= earlier.len(),
    ensures
        replace_sender(earlier, point, at, from).len() <= earlier.len() + 1,
        forall|i: int|
            0 <= i < replace_sender(earlier, point, at, from).len() ==> (#[trigger] replace_sender(
                earlier,
                point,
                at,
                from,
            )[i]).1 == at || (i < earlier.len() && replace_sender(earlier, point, at, from)[i]
                == earlier[i]),
    decreases earlier.len() - from,
{
    if from < earlier.len() {
        replacing_changes_one(earlier, point, at, from + 1);
    }
}

/// The four bytes of a number, the lowest first.
pub open spec fn le_bytes(n: u32) -> Seq<u8> {
    seq![
        (n % 256) as u8,
        (n / 256 % 256) as u8,
        (n / 65536 % 256) as u8,
        (n / 16777216) as u8,
    ]
}

/// The text that marks what the seed is for.
pub open spec fn nonce_tag() -> Seq<u8> {
    Seq::new(26, |i: int| "coordinator/musig-nonce/v1"@[i] as u8)
}

/// What the coordinator's nonces for a contract are derived from: its key, the output that funds
/// the contract and the digest of all of the contract's terms, under a tag of their own.
pub open spec fn nonce_seed_of(
    funding_txid: Seq<u8>,
    funding_vout: u32,
    private_key: Seq<u8>,
    params: Seq<u8>,
) -> Seq<u8> {
    sha256_digest(nonce_binding(funding_txid, funding_vout, private_key, params))
}

/// What the seed is the digest of.
pub open spec fn nonce_binding(
    funding_txid: Seq<u8>,
    funding_vout: u32,
    private_key: Seq<u8>,
    params: Seq<u8>,
) -> Seq<u8> {
    let tag = sha256_digest(nonce_tag());
    tag + tag + private_key + funding_txid + le_bytes(funding_vout) + sha256_digest(params)
}

/// The seed binds all that it is derived from: two that are digests of the same bytes have the same
/// key, the same funding output and the same digest of the terms.
pub proof fn the_seed_binds_everything(
    txid_a: Seq<u8>,
    vout_a: u32,
    key_a: Seq<u8>,
    params_a: Seq<u8>,
    txid_b: Seq<u8>,
    vout_b: u32,
    key_b: Seq<u8>,
    params_b: Seq<u8>,
)
    requires
        txid_a.len() == 32,
        txid_b.len() == 32,
        key_a.len() == 32,
        key_b.len() == 32,
        nonce_binding(txid_a, vout_a, key_a, params_a) == nonce_binding(
            txid_b,
            vout_b,
            key_b,
            params_b,
        ),
    ensures
        txid_a == txid_b,
        vout_a == vout_b,
        key_a == key_b,
        sha256_digest(params_a) == sha256_digest(params_b),
{
    let t = sha256_digest(nonce_tag()).len() as int * 2;
    let a = nonce_binding(txid_a, vout_a, key_a, params_a);
    let b = nonce_binding(txid_b, vout_b, key_b, params_b);
    assert(a.subrange(t, t + 32) =~= key_a);
    assert(b.subrange(t, t + 32) =~= key_b);
    assert(a.subrange(t + 32, t + 64) =~= txid_a);
    assert(b.subrange(t + 32, t + 64) =~= txid_b);
    assert(a.subrange(t + 64, t + 68) =~= le_bytes(vout_a));
    assert(b.subrange(t + 64, t + 68) =~= le_bytes(vout_b));
    assert(a.skip(t + 68) =~= sha256_digest(params_a));
    assert(b.skip(t + 68) =~= sha256_digest(params_b));
    let x = le_bytes(vout_a);
    let y = le_bytes(vout_b);
    assert(x == y);
    assert(x[0] == y[0] && x[1] == y[1] && x[2] == y[2] && x[3] == y[3]);
    number_from_bytes(vout_a);
    number_from_bytes(vout_b);
}

/// A number is made up again of its bytes.
proof fn number_from_bytes(n: u32)
    ensures
        n == le_bytes(n)[0] + 256 * le_bytes(n)[1] + 65536 * le_bytes(n)[2] + 16777216
            * le_bytes(n)[3],
{
    assert(n == n % 256 + 256 * (n / 256 % 256) + 65536 * (n / 65536 % 256) + 16777216 * (n
        / 16777216)) by (bit_vector);
}

/// The tag that marks what the seed is for.
fn tag_bytes() -> (bytes: Vec<u8>)
    ensures
        bytes@ == nonce_tag(),
{
    proof {
        reveal_strlit("coordinator/musig-nonce/v1");
    }
    let tag = "coordinator/musig-nonce/v1";
    let mut bytes: Vec<u8> = Vec::new();
    let mut i: usize = 0;
    while i < 26
        invariant
            i <= 26,
            tag@ == "coordinator/musig-nonce/v1"@,
            tag.is_ascii(),
            tag@.len() == 26,
            bytes@.len() == i,
            forall|j: int|
                0 <= j < i ==> #[trigger] bytes@[j] == "coordinator/musig-nonce/v1"@[j] as u8,
        decreases 26 - i,
    {
        bytes.push(tag.get_ascii(i));
        i = i + 1;
    }
    assert(bytes@ =~= nonce_tag());
    bytes
}

/// Append bytes.
pub(crate) fn append_bytes(to: &mut Vec<u8>, bytes: &Vec<u8>)
    ensures
        final(to)@ == old(to)@ + bytes@,
{
    let mut i: usize = 0;
    while i < bytes.len()
        invariant
            i <= bytes@.len(),
            to@ =~= old(to)@ + bytes@.take(i as int),
        decreases bytes@.len() - i,
    {
        to.push(bytes[i]);
        i = i + 1;
    }
    assert(bytes@.take(i as int) =~= bytes@);
}

/// Seed for the coordinator's nonces.
///
/// Secret nonces are never stored: each signing step derives them again and checks that they give
/// the published ones, so they must be the same every time. The seed binds the key, the funding
/// output and the full terms of the contract, given by their encoding, so that a changed contract
/// never uses a nonce again.
pub fn nonce_seed(funding_outpoint: &OutPoint, private_key: &Vec<u8>, params: &Vec<u8>) -> (seed: Vec<
    u8,
>)
    ensures
        seed@ == nonce_seed_of(
            funding_outpoint.txid@,
            funding_outpoint.vout,
            private_key@,
            params@,
        ),
        seed@.len() == 32,
{
    let tag = sha256(&tag_bytes());
    let params_digest = sha256(params);
    let vout: u32 = funding_outpoint.vout;
    let mut bound: Vec<u8> = Vec::new();
    append_bytes(&mut bound, &tag);
    append_bytes(&mut bound, &tag);
    append_bytes(&mut bound, private_key);
    append_bytes(&mut bound, &funding_outpoint.txid);
    bound.push((vout % 256) as u8);
    bound.push((vout / 256 % 256) as u8);
    bound.push((vout / 65536 % 256) as u8);
    bound.push((vout / 16777216) as u8);
    append_bytes(&mut bound, &params_digest);
    assert(bound@ =~= tag@ + tag@ + private_key@ + funding_outpoint.txid@ + le_bytes(vout)
        + params_digest@);
    sha256(&bound)
}

} // verus!
