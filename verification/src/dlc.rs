//! The contract's transactions and signatures, as the `dlctix` crate makes them.
//!
//! Terms, nonces, signatures and signed contracts are passed on in the text that the crate writes
//! of them; keys, points and transactions in their encodings. What the crate makes of them is
//! named here and left to it.

use crate::chain::TxOutput;
use crate::contract::{attestations_view, expiry_view, points_view, OutPoint, PayoutWeights};
use crate::encoding::text_view;
use dlctix::secp::{MaybePoint, Point, Scalar};
use rand_chacha::rand_core::SeedableRng;
use std::collections::BTreeMap;
use vstd::prelude::*;

verus! {

/// The text of a player: their compressed key, and the hashes of their ticket and their payout.
pub uninterp spec fn player_text(
    pubkey: Seq<u8>,
    ticket_hash: Seq<u8>,
    payout_hash: Seq<u8>,
) -> Option<Seq<char>>;

/// The text of a player, from the `Serialize` of `dlctix::Player`. The text is named; there is none
/// for a key that is no point, or a hash that has not 32 bytes.
#[verifier::external_body]
pub(crate) fn write_player(
    pubkey: &Vec<u8>,
    ticket_hash: &Vec<u8>,
    payout_hash: &Vec<u8>,
) -> (text: Option<String>)
    ensures
        text_view(text) == player_text(pubkey@, ticket_hash@, payout_hash@),
{
    let player = dlctix::Player {
        pubkey: Point::from_slice(pubkey).ok()?,
        ticket_hash: ticket_hash.as_slice().try_into().ok()?,
        payout_hash: payout_hash.as_slice().try_into().ok()?,
    };
    serde_json::to_string(&player).ok()
}

/// The text of an event: the points that its outcomes unlock, and when it expires.
pub uninterp spec fn event_text(points: Seq<Seq<u8>>, expiry: Option<u32>) -> Option<Seq<char>>;

/// The text of an event, from the `Serialize` of `dlctix::EventLockingConditions`. The text is
/// named; there is none where one of the points cannot be read.
#[verifier::external_body]
pub(crate) fn write_event(points: &Vec<Vec<u8>>, expiry: Option<u32>) -> (text: Option<String>)
    ensures
        text_view(text) == event_text(points_view(points@), expiry),
{
    let locking_points: Option<Vec<MaybePoint>> =
        points.iter().map(|point| MaybePoint::from_slice(point).ok()).collect();
    let event = dlctix::EventLockingConditions { locking_points: locking_points?, expiry };
    serde_json::to_string(&event).ok()
}

/// The text of payouts: the weights of each attested outcome, and those of the expiry.
pub uninterp spec fn payouts_text(
    attestations: Map<usize, Map<usize, u64>>,
    expiry: Option<Map<usize, u64>>,
) -> Option<Seq<char>>;

/// The text of payouts, from the `Serialize` of a map by `dlctix::Outcome`. The text is named.
#[verifier::external_body]
pub(crate) fn write_payouts(
    attestations: &BTreeMap<usize, PayoutWeights>,
    expiry: &Option<PayoutWeights>,
) -> (text: Option<String>)
    ensures
        text_view(text) == payouts_text(attestations_view(*attestations), expiry_view(*expiry)),
{
    let attested = attestations.iter().map(|(i, weights)| (dlctix::Outcome::Attestation(*i), weights));
    let expired = expiry.iter().map(|weights| (dlctix::Outcome::Expiry, weights));
    let payouts: BTreeMap<dlctix::Outcome, &PayoutWeights> = attested.chain(expired).collect();
    serde_json::to_string(&payouts).ok()
}

/// The text of a contract's terms, made up of those of its parts.
pub uninterp spec fn terms_text(
    market_maker: Seq<u8>,
    players: Seq<Seq<char>>,
    event: Seq<char>,
    payouts: Seq<char>,
    fee_rate: u64,
    funding_value: u64,
    block_delta: u16,
) -> Option<Seq<char>>;

/// The texts, as sequences of characters.
pub open spec fn texts_view(texts: Seq<String>) -> Seq<Seq<char>> {
    texts.map_values(|text: String| text@)
}

/// The text of a contract's terms, from the `Serialize` of `dlctix::ContractParameters`. The text
/// is named; there is none where one of its parts cannot be read.
#[verifier::external_body]
pub(crate) fn write_terms(
    market_maker: &Vec<u8>,
    players: &Vec<String>,
    event: &String,
    payouts: &String,
    fee_rate: u64,
    funding_value: u64,
    block_delta: u16,
) -> (text: Option<String>)
    ensures
        text_view(text) == terms_text(
            market_maker@,
            texts_view(players@),
            event@,
            payouts@,
            fee_rate,
            funding_value,
            block_delta,
        ),
{
    let players: Option<Vec<dlctix::Player>> =
        players.iter().map(|player| serde_json::from_str(player).ok()).collect();
    let terms = dlctix::ContractParameters {
        market_maker: dlctix::MarketMaker { pubkey: Point::from_slice(market_maker).ok()? },
        players: players?,
        event: serde_json::from_str(event).ok()?,
        outcome_payouts: serde_json::from_str(payouts).ok()?,
        fee_rate: bitcoin::FeeRate::from_sat_per_kwu(fee_rate),
        funding_value: bitcoin::Amount::from_sat(funding_value),
        relative_locktime_block_delta: block_delta,
    };
    serde_json::to_string(&terms).ok()
}

/// The output that funds a contract with these terms.
pub uninterp spec fn funding_output_of(terms: Seq<char>) -> Option<(u64, Seq<u8>)>;

/// An output, where there is one, with its script as a sequence of bytes.
pub open spec fn paid_view(output: Option<TxOutput>) -> Option<(u64, Seq<u8>)> {
    match output {
        Some(output) => Some((output.value, output.script_pubkey@)),
        None => None,
    }
}

/// The output that funds a contract, from `funding_output` of `dlctix::ContractParameters`. The
/// result is named.
#[verifier::external_body]
pub(crate) fn funding_output(terms: &str) -> (output: Option<TxOutput>)
    ensures
        paid_view(output) == funding_output_of(terms@),
{
    let terms: dlctix::ContractParameters = serde_json::from_str(terms).ok()?;
    let output = terms.funding_output().ok()?;
    Some(TxOutput {
        value: output.value.to_sat(),
        script_pubkey: output.script_pubkey.to_bytes(),
    })
}

/// The text of the contract with these terms on this output, if it can be built.
pub uninterp spec fn contract_text(terms: Seq<char>, txid: Seq<u8>, vout: u32) -> Option<Seq<char>>;

/// The text of a contract, from `dlctix::TicketedDLC::new` and its `Serialize`. The text is named;
/// there is none for terms that the crate refuses.
#[verifier::external_body]
pub(crate) fn write_contract(terms: &str, outpoint: &OutPoint) -> (text: Option<String>)
    ensures
        text_view(text) == contract_text(terms@, outpoint.txid@, outpoint.vout),
{
    let txid = bitcoin::hashes::Hash::from_slice(&outpoint.txid).ok()?;
    let funding = bitcoin::OutPoint::new(txid, outpoint.vout);
    let contract = dlctix::TicketedDLC::new(serde_json::from_str(terms).ok()?, funding).ok()?;
    serde_json::to_string(&contract).ok()
}

/// The public nonces that a signer gives for a contract, where their secret nonces are drawn with
/// a seed.
pub uninterp spec fn session_nonces(contract: Seq<char>, seed: Seq<u8>, key: Seq<u8>) -> Option<
    Seq<char>,
>;

/// The public nonces of a signer, from `our_public_nonces` of a `dlctix::SigningSession` whose
/// secret nonces are drawn from `rand_chacha::ChaCha20Rng`. The text of the nonces is named; it can
/// be read again.
#[verifier::external_body]
pub(crate) fn own_nonces(contract: &str, seed: &Vec<u8>, key: &Vec<u8>) -> (nonces: Option<String>)
    ensures
        text_view(nonces) == session_nonces(contract@, seed@, key@),
        nonces matches Some(text) ==> nonces_match(text@, text@),
{
    let contract: dlctix::TicketedDLC = serde_json::from_str(contract).ok()?;
    let mut rng = rand_chacha::ChaCha20Rng::from_seed(seed.as_slice().try_into().ok()?);
    let key = Scalar::from_slice(key).ok()?;
    let session = dlctix::SigningSession::new(contract, &mut rng, key).ok()?;
    serde_json::to_string(session.our_public_nonces()).ok()
}

/// Two texts of public nonces stand for the same ones.
pub uninterp spec fn nonces_match(ours: Seq<char>, theirs: Seq<char>) -> bool;

/// Whether two texts stand for the same public nonces, from `==` of `dlctix::SigMap`, which both are
/// read into with `serde_json::from_str`; `None` where one cannot be read. That they do is named; a
/// text that can be read stands for the same as itself.
#[verifier::external_body]
pub(crate) fn do_nonces_match(ours: &str, theirs: &str) -> (same: Option<bool>)
    ensures
        (same == Some(true)) == nonces_match(ours@, theirs@),
        same is Some && ours@ == theirs@ ==> same == Some(true),
{
    let ours: dlctix::SigMap<dlctix::musig2::PubNonce> = serde_json::from_str(ours).ok()?;
    let theirs: dlctix::SigMap<dlctix::musig2::PubNonce> = serde_json::from_str(theirs).ok()?;
    Some(ours == theirs)
}

/// Two texts of partial signatures stand for the same ones.
pub uninterp spec fn partial_signatures_match(ours: Seq<char>, theirs: Seq<char>) -> bool;

/// Whether two texts stand for the same partial signatures, from `==` of `dlctix::SigMap`, which both
/// are read into with `serde_json::from_str`; `None` where one cannot be read. That they do is named;
/// a text that can be read stands for the same as itself.
#[verifier::external_body]
pub(crate) fn do_partial_signatures_match(ours: &str, theirs: &str) -> (same: Option<bool>)
    ensures
        (same == Some(true)) == partial_signatures_match(ours@, theirs@),
        same is Some && ours@ == theirs@ ==> same == Some(true),
{
    let ours: dlctix::SigMap<dlctix::musig2::PartialSignature> = serde_json::from_str(ours).ok()?;
    let theirs: dlctix::SigMap<dlctix::musig2::PartialSignature> =
        serde_json::from_str(theirs).ok()?;
    Some(ours == theirs)
}

/// The aggregated nonces of all signers of a contract, and the partial signatures that the one who
/// coordinates them makes with them.
pub uninterp spec fn session_signatures(
    contract: Seq<char>,
    seed: Seq<u8>,
    key: Seq<u8>,
    nonces: Seq<char>,
) -> Option<(Seq<char>, Seq<char>)>;

/// Two texts, where there are any, as sequences of characters.
pub open spec fn text_pair_view(texts: Option<(String, String)>) -> Option<(Seq<char>, Seq<char>)> {
    match texts {
        Some(texts) => Some((texts.0@, texts.1@)),
        None => None,
    }
}

/// The aggregated nonces and the coordinator's partial signatures, from
/// `aggregate_nonces_and_compute_partial_signatures` of a `dlctix::SigningSession`. `nonces` is the
/// text of the other signers' nonces by their keys. The texts of what is made are named; that of the
/// partial signatures can be read again.
#[verifier::external_body]
pub(crate) fn aggregate_nonces(contract: &str, seed: &Vec<u8>, key: &Vec<u8>, nonces: &str) -> (made:
    Option<(String, String)>)
    ensures
        text_pair_view(made) == session_signatures(contract@, seed@, key@, nonces@),
        made matches Some(texts) ==> partial_signatures_match(texts.1@, texts.1@),
{
    let contract: dlctix::TicketedDLC = serde_json::from_str(contract).ok()?;
    let mut rng = rand_chacha::ChaCha20Rng::from_seed(seed.as_slice().try_into().ok()?);
    let key = Scalar::from_slice(key).ok()?;
    let session = dlctix::SigningSession::new(contract, &mut rng, key).ok()?;
    let nonces = serde_json::from_str(nonces).ok()?;
    let session = session.aggregate_nonces_and_compute_partial_signatures(nonces).ok()?;
    let aggregated = serde_json::to_string(session.aggregated_nonces()).ok()?;
    Some((aggregated, serde_json::to_string(session.our_partial_signatures()).ok()?))
}

/// A signer's partial signatures on a contract verify.
pub uninterp spec fn signatures_verify(
    contract: Seq<char>,
    seed: Seq<u8>,
    key: Seq<u8>,
    nonces: Seq<char>,
    signer: Seq<u8>,
    signatures: Seq<char>,
) -> bool;

/// Whether a signer's partial signatures verify, from `verify_partial_signatures` of a
/// `dlctix::SigningSession`; `None` where there is no such session. That they do is named.
#[verifier::external_body]
pub(crate) fn do_signatures_verify(
    contract: &str,
    seed: &Vec<u8>,
    key: &Vec<u8>,
    nonces: &str,
    signer: &Vec<u8>,
    signatures: &str,
) -> (verify: Option<bool>)
    ensures
        (verify == Some(true)) == signatures_verify(
            contract@,
            seed@,
            key@,
            nonces@,
            signer@,
            signatures@,
        ),
{
    let contract: dlctix::TicketedDLC = serde_json::from_str(contract).ok()?;
    let mut rng = rand_chacha::ChaCha20Rng::from_seed(seed.as_slice().try_into().ok()?);
    let key = Scalar::from_slice(key).ok()?;
    let session = dlctix::SigningSession::new(contract, &mut rng, key).ok()?;
    let nonces = serde_json::from_str(nonces).ok()?;
    let session = session.aggregate_nonces_and_compute_partial_signatures(nonces).ok()?;
    let signatures = serde_json::from_str(signatures).ok()?;
    Some(session.verify_partial_signatures(Point::from_slice(signer).ok()?, &signatures).is_ok())
}

/// The contract that all signers' partial signatures combine to.
pub uninterp spec fn combined_contract(
    contract: Seq<char>,
    seed: Seq<u8>,
    key: Seq<u8>,
    nonces: Seq<char>,
    signatures: Seq<char>,
) -> Option<Seq<char>>;

/// The signed contract, from `aggregate_all_signatures` of a `dlctix::SigningSession`. `nonces` and
/// `signatures` are the texts of the other signers' nonces and partial signatures by their keys. The
/// text of the contract is named.
#[verifier::external_body]
pub(crate) fn combine_signatures(
    contract: &str,
    seed: &Vec<u8>,
    key: &Vec<u8>,
    nonces: &str,
    signatures: &str,
) -> (signed: Option<String>)
    ensures
        text_view(signed) == combined_contract(contract@, seed@, key@, nonces@, signatures@),
{
    let contract: dlctix::TicketedDLC = serde_json::from_str(contract).ok()?;
    let mut rng = rand_chacha::ChaCha20Rng::from_seed(seed.as_slice().try_into().ok()?);
    let key = Scalar::from_slice(key).ok()?;
    let session = dlctix::SigningSession::new(contract, &mut rng, key).ok()?;
    let nonces = serde_json::from_str(nonces).ok()?;
    let session = session.aggregate_nonces_and_compute_partial_signatures(nonces).ok()?;
    let signatures = serde_json::from_str(signatures).ok()?;
    serde_json::to_string(&session.aggregate_all_signatures(signatures).ok()?).ok()
}

/// The contract that a whole set of signatures makes, if the market maker accepts it.
pub uninterp spec fn accepted_contract(contract: Seq<char>, signatures: Seq<char>) -> Option<
    Seq<char>,
>;

/// The signed contract, from `into_signed_contract` of `dlctix::TicketedDLC`, which verifies every
/// signature from the market maker's side. Its text is named.
#[verifier::external_body]
pub(crate) fn accept_signatures(contract: &str, signatures: &str) -> (signed: Option<String>)
    ensures
        text_view(signed) == accepted_contract(contract@, signatures@),
{
    let contract: dlctix::TicketedDLC = serde_json::from_str(contract).ok()?;
    let market_maker = contract.params().market_maker.pubkey;
    let signatures = serde_json::from_str(signatures).ok()?;
    serde_json::to_string(&contract.into_signed_contract(market_maker, signatures).ok()?).ok()
}

} // verus!
