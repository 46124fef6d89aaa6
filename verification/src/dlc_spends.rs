//! The transactions that settle a signed contract, as the `dlctix` crate makes them.
//!
//! A contract is passed on in the text that the crate writes of it. An outcome is given by the
//! index of what the oracle attested to, or by nothing where the contract expired.

use crate::chain::TxOutput;
use crate::contract::OutPoint;
use crate::encoding::bytes_view;
use bitcoin::consensus::encode::{deserialize, serialize};
use dlctix::secp::{MaybeScalar, Scalar};
use vstd::prelude::*;

verus! {

/// An output that a transaction spends: the output, the sequence that its input carries, and what
/// the output pays.
#[derive(Debug)]
pub struct SpentOutput {
    pub outpoint: OutPoint,
    pub sequence: u32,
    pub output: TxOutput,
}

/// An output that a transaction spends, with its bytes as sequences.
pub struct SpentOutputView {
    pub txid: Seq<u8>,
    pub vout: u32,
    pub sequence: u32,
    pub value: u64,
    pub script_pubkey: Seq<u8>,
}

impl View for SpentOutput {
    type V = SpentOutputView;

    open spec fn view(&self) -> SpentOutputView {
        SpentOutputView {
            txid: self.outpoint.txid@,
            vout: self.outpoint.vout,
            sequence: self.sequence,
            value: self.output.value,
            script_pubkey: self.output.script_pubkey@,
        }
    }
}

/// An output that a transaction spends, where there is one.
pub open spec fn spent_view(spent: Option<SpentOutput>) -> Option<SpentOutputView> {
    match spent {
        Some(spent) => Some(spent@),
        None => None,
    }
}

/// The transaction that an attestation to an outcome unlocks.
pub uninterp spec fn outcome_transaction(
    contract: Seq<char>,
    index: usize,
    attestation: Seq<u8>,
) -> Option<Seq<u8>>;

/// The transaction of an attested outcome, from `signed_outcome_tx` of `dlctix::SignedContract`. Its
/// encoding is named.
#[verifier::external_body]
pub(crate) fn signed_outcome_tx(contract: &str, index: usize, attestation: &Vec<u8>) -> (tx: Option<
    Vec<u8>,
>)
    ensures
        bytes_view(tx) == outcome_transaction(contract@, index, attestation@),
{
    let contract: dlctix::SignedContract = serde_json::from_str(contract).ok()?;
    let attestation = MaybeScalar::from_slice(attestation).ok()?;
    Some(serialize(&contract.signed_outcome_tx(index, attestation).ok()?))
}

/// The transaction of a contract that expired.
pub uninterp spec fn expiry_transaction(contract: Seq<char>) -> Option<Seq<u8>>;

/// The transaction of a contract that expired, from `expiry_tx` of `dlctix::SignedContract`. Its
/// encoding is named.
#[verifier::external_body]
pub(crate) fn expiry_tx(contract: &str) -> (tx: Option<Vec<u8>>)
    ensures
        bytes_view(tx) == expiry_transaction(contract@),
{
    let contract: dlctix::SignedContract = serde_json::from_str(contract).ok()?;
    Some(serialize(&contract.expiry_tx()?))
}

/// The transaction that splits an outcome among its winners, unlocked by one of their tickets.
pub uninterp spec fn split_transaction(
    contract: Seq<char>,
    attested: Option<usize>,
    player_index: usize,
    preimage: Seq<u8>,
) -> Option<Seq<u8>>;

/// The transaction that splits an outcome, from `signed_split_tx` of `dlctix::SignedContract`. Its
/// encoding is named.
#[verifier::external_body]
pub(crate) fn signed_split_tx(
    contract: &str,
    attested: Option<usize>,
    player_index: usize,
    preimage: &Vec<u8>,
) -> (tx: Option<Vec<u8>>)
    ensures
        bytes_view(tx) == split_transaction(contract@, attested, player_index, preimage@),
{
    let contract: dlctix::SignedContract = serde_json::from_str(contract).ok()?;
    let outcome = attested.map_or(dlctix::Outcome::Expiry, dlctix::Outcome::Attestation);
    let win = dlctix::WinCondition { outcome, player_index };
    let preimage = preimage.as_slice().try_into().ok()?;
    Some(serialize(&contract.signed_split_tx(&win, preimage).ok()?))
}

/// The output of an outcome's transaction that a closing transaction spends.
pub uninterp spec fn outcome_output(contract: Seq<char>, attested: Option<usize>) -> Option<
    SpentOutputView,
>;

/// The output of an outcome's transaction, from `outcome_close_tx_input_and_prevout` of
/// `dlctix::SignedContract`. It is named; a transaction's id has 32 bytes.
#[verifier::external_body]
pub(crate) fn outcome_close_input(contract: &str, attested: Option<usize>) -> (spent: Option<
    SpentOutput,
>)
    ensures
        spent_view(spent) == outcome_output(contract@, attested),
        spent matches Some(output) ==> output.outpoint.txid@.len() == 32,
{
    let contract: dlctix::SignedContract = serde_json::from_str(contract).ok()?;
    let outcome = attested.map_or(dlctix::Outcome::Expiry, dlctix::Outcome::Attestation);
    let (input, output) = contract.outcome_close_tx_input_and_prevout(&outcome).ok()?;
    let txid = bitcoin::hashes::Hash::to_byte_array(input.previous_output.txid).to_vec();
    Some(SpentOutput {
        outpoint: OutPoint { txid, vout: input.previous_output.vout },
        sequence: input.sequence.to_consensus_u32(),
        output: TxOutput {
            value: output.value.to_sat(),
            script_pubkey: output.script_pubkey.to_bytes(),
        },
    })
}

/// The output of a split transaction that a transaction which closes a winner's share spends.
pub uninterp spec fn closed_share(
    contract: Seq<char>,
    attested: Option<usize>,
    player_index: usize,
) -> Option<SpentOutputView>;

/// A winner's output of a split transaction, to be closed, from `split_close_tx_input_and_prevout`
/// of `dlctix::SignedContract`. It is named; a transaction's id has 32 bytes.
#[verifier::external_body]
pub(crate) fn split_close_input(
    contract: &str,
    attested: Option<usize>,
    player_index: usize,
) -> (spent: Option<SpentOutput>)
    ensures
        spent_view(spent) == closed_share(contract@, attested, player_index),
        spent matches Some(output) ==> output.outpoint.txid@.len() == 32,
{
    let contract: dlctix::SignedContract = serde_json::from_str(contract).ok()?;
    let outcome = attested.map_or(dlctix::Outcome::Expiry, dlctix::Outcome::Attestation);
    let win = dlctix::WinCondition { outcome, player_index };
    let (input, output) = contract.split_close_tx_input_and_prevout(&win).ok()?;
    let txid = bitcoin::hashes::Hash::to_byte_array(input.previous_output.txid).to_vec();
    Some(SpentOutput {
        outpoint: OutPoint { txid, vout: input.previous_output.vout },
        sequence: input.sequence.to_consensus_u32(),
        output: TxOutput {
            value: output.value.to_sat(),
            script_pubkey: output.script_pubkey.to_bytes(),
        },
    })
}

/// The output of a split transaction that a transaction which reclaims a winner's share spends.
pub uninterp spec fn reclaimed_share(
    contract: Seq<char>,
    attested: Option<usize>,
    player_index: usize,
) -> Option<SpentOutputView>;

/// A winner's output of a split transaction, to be reclaimed, from
/// `split_reclaim_tx_input_and_prevout` of `dlctix::SignedContract`. It is named; a transaction's id
/// has 32 bytes.
#[verifier::external_body]
pub(crate) fn split_reclaim_input(
    contract: &str,
    attested: Option<usize>,
    player_index: usize,
) -> (spent: Option<SpentOutput>)
    ensures
        spent_view(spent) == reclaimed_share(contract@, attested, player_index),
        spent matches Some(output) ==> output.outpoint.txid@.len() == 32,
{
    let contract: dlctix::SignedContract = serde_json::from_str(contract).ok()?;
    let outcome = attested.map_or(dlctix::Outcome::Expiry, dlctix::Outcome::Attestation);
    let win = dlctix::WinCondition { outcome, player_index };
    let (input, output) = contract.split_reclaim_tx_input_and_prevout(&win).ok()?;
    let txid = bitcoin::hashes::Hash::to_byte_array(input.previous_output.txid).to_vec();
    Some(SpentOutput {
        outpoint: OutPoint { txid, vout: input.previous_output.vout },
        sequence: input.sequence.to_consensus_u32(),
        output: TxOutput {
            value: output.value.to_sat(),
            script_pubkey: output.script_pubkey.to_bytes(),
        },
    })
}

/// The weight of a transaction that closes an output of the contract into one with a script of so
/// many bytes.
pub uninterp spec fn closing_weight(contract: Seq<char>, script_len: usize) -> Option<u64>;

/// The weight of a closing transaction, from `close_tx_input_weight` of `dlctix::SignedContract` and
/// `bitcoin::transaction::predict_weight`. It is named.
#[verifier::external_body]
pub(crate) fn close_weight(contract: &str, script_len: usize) -> (weight: Option<u64>)
    requires
        script_len <= 10_000,
    ensures
        weight == closing_weight(contract@, script_len),
{
    let contract: dlctix::SignedContract = serde_json::from_str(contract).ok()?;
    let input = contract.close_tx_input_weight();
    Some(bitcoin::transaction::predict_weight([input], [script_len]).to_wu())
}

/// The weight of a transaction that reclaims a share of the contract into an output with a script
/// of so many bytes.
pub uninterp spec fn reclaiming_weight(contract: Seq<char>, script_len: usize) -> Option<u64>;

/// The weight of a reclaiming transaction, from `split_reclaim_tx_input_weight` of
/// `dlctix::SignedContract` and `bitcoin::transaction::predict_weight`. It is named.
#[verifier::external_body]
pub(crate) fn reclaim_weight(contract: &str, script_len: usize) -> (weight: Option<u64>)
    requires
        script_len <= 10_000,
    ensures
        weight == reclaiming_weight(contract@, script_len),
{
    let contract: dlctix::SignedContract = serde_json::from_str(contract).ok()?;
    let input = contract.split_reclaim_tx_input_weight();
    Some(bitcoin::transaction::predict_weight([input], [script_len]).to_wu())
}

/// A transaction that closes an outcome, signed at an input with the keys of the market maker and
/// of all winners, which are given by their text.
pub uninterp spec fn closed_outcome(
    contract: Seq<char>,
    attested: Option<usize>,
    unsigned: Seq<u8>,
    input_index: usize,
    key: Seq<u8>,
    winner_keys: Seq<char>,
) -> Option<Seq<u8>>;

/// Sign a transaction that closes an outcome, from `sign_outcome_close_tx_input` of
/// `dlctix::SignedContract`, on the output that `outcome_close_tx_input_and_prevout` gives. The
/// encoding of the signed transaction is named.
#[verifier::external_body]
pub(crate) fn sign_outcome_close(
    contract: &str,
    attested: Option<usize>,
    unsigned: &Vec<u8>,
    input_index: usize,
    key: &Vec<u8>,
    winner_keys: &str,
) -> (tx: Option<Vec<u8>>)
    ensures
        bytes_view(tx) == closed_outcome(
            contract@,
            attested,
            unsigned@,
            input_index,
            key@,
            winner_keys@,
        ),
{
    let contract: dlctix::SignedContract = serde_json::from_str(contract).ok()?;
    let outcome = attested.map_or(dlctix::Outcome::Expiry, dlctix::Outcome::Attestation);
    let mut tx: bitcoin::Transaction = deserialize(unsigned).ok()?;
    let (_, prevout) = contract.outcome_close_tx_input_and_prevout(&outcome).ok()?;
    let spent = [prevout];
    let spent = bitcoin::sighash::Prevouts::All(&spent);
    let key = Scalar::from_slice(key).ok()?;
    let keys = serde_json::from_str(winner_keys).ok()?;
    contract.sign_outcome_close_tx_input(&outcome, &mut tx, input_index, &spent, key, &keys).ok()?;
    Some(serialize(&tx))
}

/// A transaction that closes a winner's share, signed at an input with the keys of the market maker
/// and of the winner.
pub uninterp spec fn closed_split(
    contract: Seq<char>,
    attested: Option<usize>,
    player_index: usize,
    unsigned: Seq<u8>,
    input_index: usize,
    key: Seq<u8>,
    winner_key: Seq<u8>,
) -> Option<Seq<u8>>;

/// Sign a transaction that closes a winner's share, from `sign_split_close_tx_input` of
/// `dlctix::SignedContract`, on the output that `split_close_tx_input_and_prevout` gives. The
/// encoding of the signed transaction is named.
#[verifier::external_body]
pub(crate) fn sign_split_close(
    contract: &str,
    attested: Option<usize>,
    player_index: usize,
    unsigned: &Vec<u8>,
    input_index: usize,
    key: &Vec<u8>,
    winner_key: &Vec<u8>,
) -> (tx: Option<Vec<u8>>)
    ensures
        bytes_view(tx) == closed_split(
            contract@,
            attested,
            player_index,
            unsigned@,
            input_index,
            key@,
            winner_key@,
        ),
{
    let contract: dlctix::SignedContract = serde_json::from_str(contract).ok()?;
    let outcome = attested.map_or(dlctix::Outcome::Expiry, dlctix::Outcome::Attestation);
    let win = dlctix::WinCondition { outcome, player_index };
    let mut tx: bitcoin::Transaction = deserialize(unsigned).ok()?;
    let (_, prevout) = contract.split_close_tx_input_and_prevout(&win).ok()?;
    let spent = [prevout];
    let spent = bitcoin::sighash::Prevouts::All(&spent);
    let key = Scalar::from_slice(key).ok()?;
    let winner = Scalar::from_slice(winner_key).ok()?;
    contract.sign_split_close_tx_input(&win, &mut tx, input_index, &spent, key, winner).ok()?;
    Some(serialize(&tx))
}

/// A transaction that reclaims a winner's share, signed at an input with the market maker's key.
pub uninterp spec fn reclaimed_split(
    contract: Seq<char>,
    attested: Option<usize>,
    player_index: usize,
    unsigned: Seq<u8>,
    input_index: usize,
    key: Seq<u8>,
) -> Option<Seq<u8>>;

/// Sign a transaction that reclaims a winner's share, from `sign_split_reclaim_tx_input` of
/// `dlctix::SignedContract`, on the output that `split_reclaim_tx_input_and_prevout` gives. The
/// encoding of the signed transaction is named.
#[verifier::external_body]
pub(crate) fn sign_split_reclaim(
    contract: &str,
    attested: Option<usize>,
    player_index: usize,
    unsigned: &Vec<u8>,
    input_index: usize,
    key: &Vec<u8>,
) -> (tx: Option<Vec<u8>>)
    ensures
        bytes_view(tx) == reclaimed_split(
            contract@,
            attested,
            player_index,
            unsigned@,
            input_index,
            key@,
        ),
{
    let contract: dlctix::SignedContract = serde_json::from_str(contract).ok()?;
    let outcome = attested.map_or(dlctix::Outcome::Expiry, dlctix::Outcome::Attestation);
    let win = dlctix::WinCondition { outcome, player_index };
    let mut tx: bitcoin::Transaction = deserialize(unsigned).ok()?;
    let (_, prevout) = contract.split_reclaim_tx_input_and_prevout(&win).ok()?;
    let spent = [prevout];
    let spent = bitcoin::sighash::Prevouts::All(&spent);
    let key = Scalar::from_slice(key).ok()?;
    contract.sign_split_reclaim_tx_input(&win, &mut tx, input_index, &spent, key).ok()?;
    Some(serialize(&tx))
}

} // verus!
