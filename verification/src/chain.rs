//! Transactions and keys in the encodings that the chain uses.

use crate::contract::{OutPoint, Transaction};
use crate::encoding::{digit_of, hex_bytes, hex_round_trips, hex_text, is_hex};
use std::str::FromStr;
use vstd::prelude::*;

verus! {

/// An output of a transaction: its value in satoshis, and the script that it is locked with.
#[derive(Debug)]
pub struct TxOutput {
    pub value: u64,
    pub script_pubkey: Vec<u8>,
}

/// What is read of a transaction: its id and its outputs.
#[derive(Debug)]
pub struct TxParts {
    pub txid: Vec<u8>,
    pub outputs: Vec<TxOutput>,
}

/// The outputs, with their scripts as sequences of bytes.
pub open spec fn outputs_view(outputs: Seq<TxOutput>) -> Seq<(u64, Seq<u8>)> {
    outputs.map_values(|output: TxOutput| (output.value, output.script_pubkey@))
}

/// What is read of a transaction.
pub open spec fn parts_view(parts: Option<TxParts>) -> Option<(Seq<u8>, Seq<(u64, Seq<u8>)>)> {
    match parts {
        Some(parts) => Some((parts.txid@, outputs_view(parts.outputs@))),
        None => None,
    }
}

/// The id and the outputs of a transaction in its consensus encoding.
pub uninterp spec fn transaction_parts(raw: Seq<u8>) -> Option<(Seq<u8>, Seq<(u64, Seq<u8>)>)>;

/// The encoding of a public key that is given in hexadecimal.
pub uninterp spec fn public_key_bytes(text: Seq<char>) -> Option<Seq<u8>>;

/// Read a transaction, from `bitcoin::consensus::encode::deserialize`, with its `compute_txid`. The
/// result is named; an id has 32 bytes.
#[verifier::external_body]
pub(crate) fn decode_transaction(raw: &Vec<u8>) -> (parts: Option<TxParts>)
    ensures
        parts_view(parts) == transaction_parts(raw@),
        parts matches Some(read) ==> read.txid@.len() == 32,
{
    let tx: bitcoin::Transaction = bitcoin::consensus::encode::deserialize(raw).ok()?;
    let txid = bitcoin::hashes::Hash::to_byte_array(tx.compute_txid()).to_vec();
    let outputs = tx.output.iter().map(|output| TxOutput {
        value: output.value.to_sat(),
        script_pubkey: output.script_pubkey.to_bytes(),
    }).collect();
    Some(TxParts { txid, outputs })
}

/// The id of a transaction, where it can be read.
pub fn transaction_id(tx: &Transaction) -> (txid: Option<Vec<u8>>)
    ensures
        match transaction_parts(tx.raw@) {
            Some(parts) => txid matches Some(txid) && txid@ == parts.0 && txid@.len() == 32,
            None => txid is None,
        },
{
    match decode_transaction(&tx.raw) {
        Some(parts) => Some(parts.txid),
        None => None,
    }
}

/// Read a public key, from `from_str` of `bitcoin::PublicKey`. The result is named.
#[verifier::external_body]
pub(crate) fn public_key_from_str(text: &str) -> (bytes: Option<Vec<u8>>)
    ensures
        crate::encoding::bytes_view(bytes) == public_key_bytes(text@),
{
    bitcoin::PublicKey::from_str(text).ok().map(|key| key.to_bytes())
}

/// The transaction's id that text stands for: its 32 bytes in hexadecimal, the last first.
pub open spec fn named_transaction(text: Seq<char>) -> Option<Seq<u8>> {
    if is_hex(text) && text.len() == 64 {
        Some(hex_bytes(text).reverse())
    } else {
        None
    }
}

/// A number in decimal digits.
pub open spec fn decimal(number: nat) -> Seq<char>
    decreases number,
{
    if number < 10 {
        seq![digit_of(number as int)]
    } else {
        decimal(number / 10).push(digit_of(number as int % 10))
    }
}

/// The text of an output: its transaction's id in hexadecimal, the last byte first, and its index in
/// decimal after a colon.
pub open spec fn output_text(txid: Seq<u8>, vout: u32) -> Seq<char> {
    hex_text(txid.reverse()).push(':') + decimal(vout as nat)
}

/// The text names an output with this index: a transaction's id in hexadecimal, a colon, and the index
/// in decimal without leading zeros.
pub open spec fn names_output(text: Seq<char>, vout: u32) -> bool {
    &&& text.len() > 65
    &&& named_transaction(text.take(64)) is Some
    &&& text[64] == ':'
    &&& text.skip(65) == decimal(vout as nat)
}

/// The output that text names: a transaction's id, and its index among the outputs.
pub open spec fn named_output(text: Seq<char>) -> Option<(Seq<u8>, u32)> {
    if exists|vout: u32| #[trigger] names_output(text, vout) {
        Some((named_transaction(text.take(64))->0, choose|vout: u32| names_output(text, vout)))
    } else {
        None
    }
}

/// An output, with its transaction's id as a sequence of bytes.
pub open spec fn output_view(output: OutPoint) -> (Seq<u8>, u32) {
    (output.txid@, output.vout)
}

/// An output, where there is one, with its transaction's id as a sequence of bytes.
pub open spec fn output_option_view(output: Option<OutPoint>) -> Option<(Seq<u8>, u32)> {
    match output {
        Some(output) => Some(output_view(output)),
        None => None,
    }
}

/// Read an output, from `from_str` of `bitcoin::OutPoint`, which takes the index only in its shortest
/// form and the id in either case.
#[verifier::external_body]
pub(crate) fn output_from_str(text: &str) -> (output: Option<OutPoint>)
    ensures
        output_option_view(output) == named_output(text@),
{
    let read = bitcoin::OutPoint::from_str(text).ok()?;
    let txid = bitcoin::hashes::Hash::to_byte_array(read.txid).to_vec();
    Some(OutPoint { txid, vout: read.vout })
}

/// Write an output, from the `Display` of `bitcoin::OutPoint`: the id in lower case.
#[verifier::external_body]
pub(crate) fn output_to_string(output: &OutPoint) -> (text: String)
    requires
        output.txid@.len() == 32,
    ensures
        text@ == output_text(output.txid@, output.vout),
{
    let txid: bitcoin::Txid = bitcoin::hashes::Hash::from_slice(&output.txid).unwrap();
    bitcoin::OutPoint::new(txid, output.vout).to_string()
}

/// Read a transaction's id, from `from_str` of `bitcoin::Txid`: 64 hexadecimal digits in either case,
/// whose bytes are in reverse.
#[verifier::external_body]
pub(crate) fn txid_from_str(text: &str) -> (txid: Option<Vec<u8>>)
    ensures
        crate::encoding::bytes_view(txid) == named_transaction(text@),
{
    let txid = bitcoin::Txid::from_str(text).ok()?;
    Some(bitcoin::hashes::Hash::to_byte_array(txid).to_vec())
}

/// The text of a transaction's id: its bytes in hexadecimal, the last first.
pub open spec fn txid_text(txid: Seq<u8>) -> Seq<char> {
    hex_text(txid.reverse())
}

/// Write a transaction's id, from the `Display` of `bitcoin::Txid`: in lower case, the last byte
/// first.
#[verifier::external_body]
pub(crate) fn txid_to_string(txid: &Vec<u8>) -> (text: String)
    requires
        txid@.len() == 32,
    ensures
        text@ == txid_text(txid@),
{
    let txid: bitcoin::Txid = bitcoin::hashes::Hash::from_slice(txid).unwrap();
    txid.to_string()
}

/// The text of a transaction's id names that transaction.
pub proof fn txids_read_back(txid: Seq<u8>)
    requires
        txid.len() == 32,
    ensures
        named_transaction(txid_text(txid)) == Some(txid),
{
    hex_round_trips(txid.reverse());
    assert(txid.reverse().reverse() =~= txid);
}

/// The digits of a number tell it.
proof fn decimals_differ(a: nat, b: nat)
    requires
        decimal(a) == decimal(b),
    ensures
        a == b,
    decreases a,
{
    assert(decimal(a).last() == digit_of(a as int % 10));
    assert(decimal(b).last() == digit_of(b as int % 10));
    if a >= 10 && b >= 10 {
        assert(decimal(a).drop_last() =~= decimal(a / 10));
        assert(decimal(b).drop_last() =~= decimal(b / 10));
        decimals_differ(a / 10, b / 10);
    } else {
        decimal_is_written(a / 10);
        decimal_is_written(b / 10);
    }
}

/// A number has a digit.
proof fn decimal_is_written(number: nat)
    ensures
        decimal(number).len() > 0,
    decreases number,
{
}

/// The text of an output names that output, and no other.
pub proof fn outputs_read_back(txid: Seq<u8>, vout: u32)
    requires
        txid.len() == 32,
    ensures
        named_output(output_text(txid, vout)) == Some((txid, vout)),
{
    let text = output_text(txid, vout);
    let id = hex_text(txid.reverse());
    hex_round_trips(txid.reverse());
    decimal_is_written(vout as nat);
    assert(text.take(64) =~= id);
    assert(text.skip(65) =~= decimal(vout as nat));
    assert(txid.reverse().reverse() =~= txid);
    assert(names_output(text, vout));
    let named = choose|vout: u32| names_output(text, vout);
    decimals_differ(named as nat, vout as nat);
}

/// The x coordinate of a public key that is given in hexadecimal.
pub uninterp spec fn x_coordinate(text: Seq<char>) -> Option<Seq<u8>>;

/// The x coordinate of a public key, from `from_str` of `bitcoin::PublicKey` and
/// `x_only_public_key` of its point. The result is named; a coordinate has 32 bytes.
#[verifier::external_body]
pub(crate) fn x_only_key(text: &str) -> (bytes: Option<Vec<u8>>)
    ensures
        crate::encoding::bytes_view(bytes) == x_coordinate(text@),
        bytes matches Some(key) ==> key@.len() == 32,
{
    let key = bitcoin::PublicKey::from_str(text).ok()?;
    Some(key.inner.x_only_public_key().0.serialize().to_vec())
}

} // verus!
