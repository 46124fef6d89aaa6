//! Partially signed transactions, in the base64 text that they are exchanged in.

use crate::encoding::{bytes_view, text_view};
use std::str::FromStr;
use vstd::prelude::*;

verus! {

/// What is read of an input of a partially signed transaction.
#[derive(Clone, Copy, PartialEq, Eq, Structural, Debug)]
pub struct FundingInput {
    /// Its witness is final.
    pub finalized: bool,
    /// It spends an escrow, which two have to sign.
    pub escrow: bool,
    /// How many have signed it.
    pub partial_sigs: usize,
    /// The taproot key has signed it.
    pub tap_key_sig: bool,
    /// The output that it spends is told.
    pub witness_utxo: bool,
    /// How many outputs the transaction that it spends from has, where that is told.
    pub utxo_outputs: Option<usize>,
    /// Which of them it spends.
    pub vout: u32,
}

/// Where an extended public key comes from.
#[derive(Debug)]
pub struct KeySource {
    pub xpub: Vec<u8>,
    pub fingerprint: Vec<u8>,
    pub path: Vec<u32>,
}

/// Where an extended public key comes from, with its bytes as sequences.
pub struct KeySourceView {
    pub xpub: Seq<u8>,
    pub fingerprint: Seq<u8>,
    pub path: Seq<u32>,
}

impl View for KeySource {
    type V = KeySourceView;

    open spec fn view(&self) -> KeySourceView {
        KeySourceView { xpub: self.xpub@, fingerprint: self.fingerprint@, path: self.path@ }
    }
}

/// The sources of keys, with their bytes as sequences.
pub open spec fn sources_view(sources: Seq<KeySource>) -> Seq<KeySourceView> {
    sources.map_values(|source: KeySource| source@)
}

/// The sources of keys, where there are any, with their bytes as sequences.
pub open spec fn sources_option_view(sources: Option<Vec<KeySource>>) -> Option<
    Seq<KeySourceView>,
> {
    match sources {
        Some(sources) => Some(sources_view(sources@)),
        None => None,
    }
}

/// The inputs, where there are any, as a sequence.
pub open spec fn inputs_option_view(inputs: Option<Vec<FundingInput>>) -> Option<
    Seq<FundingInput>,
> {
    match inputs {
        Some(inputs) => Some(inputs@),
        None => None,
    }
}

/// The unsigned transaction that text holds, in its consensus encoding.
pub uninterp spec fn unsigned_transaction(text: Seq<char>) -> Option<Seq<u8>>;

/// The inputs of the partially signed transaction that text holds.
pub uninterp spec fn signed_inputs(text: Seq<char>) -> Option<Seq<FundingInput>>;

/// Where the extended keys come from that the partially signed transaction in text names.
pub uninterp spec fn key_sources(text: Seq<char>) -> Option<Seq<KeySourceView>>;

/// What `theirs` adds to `ours`.
pub uninterp spec fn combined(ours: Seq<char>, theirs: Seq<char>) -> Option<Seq<char>>;

/// The signed transaction that a finalised one holds, in its consensus encoding.
pub uninterp spec fn extracted(text: Seq<char>) -> Option<Seq<u8>>;

/// The bytes are a partially signed transaction's.
pub uninterp spec fn is_psbt_encoding(raw: Seq<u8>) -> bool;

/// Whether bytes are a partially signed transaction, from `deserialize` of `bitcoin::Psbt`. The result
/// is named.
#[verifier::external_body]
pub(crate) fn is_psbt(raw: &Vec<u8>) -> (read: bool)
    ensures
        read == is_psbt_encoding(raw@),
{
    bitcoin::Psbt::deserialize(raw).is_ok()
}

/// The unsigned transaction in a partially signed one, from `from_str` of `bitcoin::Psbt`, written
/// with `bitcoin::consensus::encode::serialize`. The result is named.
#[verifier::external_body]
pub(crate) fn read_unsigned_transaction(text: &str) -> (raw: Option<Vec<u8>>)
    ensures
        bytes_view(raw) == unsigned_transaction(text@),
{
    let psbt = bitcoin::Psbt::from_str(text).ok()?;
    Some(bitcoin::consensus::encode::serialize(&psbt.unsigned_tx))
}

/// The inputs of a partially signed transaction, from `from_str` of `bitcoin::Psbt`, which reads one
/// for each input of the unsigned transaction. The result is named.
#[verifier::external_body]
pub(crate) fn read_inputs(text: &str) -> (inputs: Option<Vec<FundingInput>>)
    ensures
        inputs_option_view(inputs) == signed_inputs(text@),
{
    let psbt = bitcoin::Psbt::from_str(text).ok()?;
    let told = psbt.inputs.iter().zip(psbt.unsigned_tx.input.iter()).map(|(input, spends)| FundingInput {
        finalized: input.final_script_witness.is_some(),
        escrow: input.witness_script.is_some(),
        partial_sigs: input.partial_sigs.len(),
        tap_key_sig: input.tap_key_sig.is_some(),
        witness_utxo: input.witness_utxo.is_some(),
        utxo_outputs: input.non_witness_utxo.as_ref().map(|spent| spent.output.len()),
        vout: spends.previous_output.vout,
    });
    Some(told.collect())
}

/// Where the extended keys come from that a partially signed transaction names, from `from_str` of
/// `bitcoin::Psbt`. The result is named.
#[verifier::external_body]
pub(crate) fn read_key_sources(text: &str) -> (sources: Option<Vec<KeySource>>)
    ensures
        sources_option_view(sources) == key_sources(text@),
{
    let psbt = bitcoin::Psbt::from_str(text).ok()?;
    let told = psbt.xpub.iter().map(|(xpub, (fingerprint, path))| KeySource {
        xpub: xpub.encode().to_vec(),
        fingerprint: fingerprint.to_bytes().to_vec(),
        path: path.to_u32_vec(),
    });
    Some(told.collect())
}

/// The extended keys of `theirs` that `ours` has too come from the same place: a shorter path is the
/// end of the longer one where theirs is the shorter.
pub open spec fn sources_agree(ours: Seq<KeySourceView>, theirs: Seq<KeySourceView>) -> bool {
    forall|i: int, j: int|
        0 <= i < ours.len() && 0 <= j < theirs.len() && (#[trigger] ours[i]).xpub == (
        #[trigger] theirs[j]).xpub ==> paths_agree(ours[i].path, theirs[j].path)
}

/// A path of theirs that is shorter than ours is the end of ours.
pub open spec fn paths_agree(ours: Seq<u32>, theirs: Seq<u32>) -> bool {
    theirs.len() < ours.len() ==> ours.skip(ours.len() - theirs.len()) == theirs
}

/// Add what `theirs` has to `ours`, from `combine` of `bitcoin::Psbt`. What it refuses to add is left
/// out: `ours` is then as far as `combine` has come. It does not return where the sources of an
/// extended key disagree, so that is left out. The result is named.
#[verifier::external_body]
pub(crate) fn combine(ours: &str, theirs: &str) -> (text: Option<String>)
    requires
        key_sources(ours@) matches Some(ours) && key_sources(theirs@) matches Some(theirs)
            && sources_agree(ours, theirs),
    ensures
        text_view(text) == combined(ours@, theirs@),
{
    let mut psbt = bitcoin::Psbt::from_str(ours).ok()?;
    let added = psbt.combine(bitcoin::Psbt::from_str(theirs).ok()?);
    added.ok();
    Some(psbt.to_string())
}

/// The transaction that the input spends from is told, and has no output where the input says.
pub open spec fn spends_nothing(input: FundingInput) -> bool {
    !input.witness_utxo && (input.utxo_outputs matches Some(outputs) && input.vout >= outputs)
}

/// Every input spends an output that there is, as far as is told.
pub open spec fn spends_outputs(inputs: Seq<FundingInput>) -> bool {
    forall|i: int| 0 <= i < inputs.len() ==> !spends_nothing(#[trigger] inputs[i])
}

/// The signed transaction in a finalised one, from `extract_tx` of `bitcoin::Psbt`, written with
/// `bitcoin::consensus::encode::serialize`. There is none where the value of an input is not told, or
/// where the fee is negative or absurdly high. It does not return where an input spends an output
/// that there is not, so that is left out. The result is named.
#[verifier::external_body]
pub(crate) fn extract(text: &str) -> (raw: Option<Vec<u8>>)
    requires
        signed_inputs(text@) matches Some(inputs) && spends_outputs(inputs),
    ensures
        bytes_view(raw) == extracted(text@),
{
    let signed = bitcoin::Psbt::from_str(text).ok()?.extract_tx().ok()?;
    Some(bitcoin::consensus::encode::serialize(&signed))
}

} // verus!
