//! The transaction that funds a contract: finding the contract's output in it, putting the players'
//! signatures together, and taking the signed transaction out of it.

use crate::chain::{decode_transaction, output_view, transaction_parts};
use crate::clock::Timestamp;
use crate::competition::Competition;
use crate::contract::{OutPoint, Transaction};
use crate::contracting::{keep_funding_psbt, ContractError};
use crate::encoding::copy_bytes;
use crate::entries::UserEntry;
use crate::kickoff_signing::{bytes_before, is_before};
use crate::lifecycle::Coordinator;
use crate::payouts::same_bytes;
use crate::psbt::{
    combine, combined, extract, extracted, key_sources, paths_agree, read_inputs, read_key_sources,
    read_unsigned_transaction, signed_inputs, sources_agree, sources_view, spends_nothing,
    spends_outputs, unsigned_transaction, FundingInput, KeySource,
};
use crate::signing::{
    all_sent, get_final_sigs_by_sender, senders_have_sent, senders_view, sent_signatures, Sender,
    SigningError,
};
use crate::terms::{find_contract_output, funded_at};
use vstd::prelude::*;

verus! {

/// The transaction that a partially signed one is for: its id and its outputs.
pub open spec fn funding_parts(psbt: Seq<char>) -> Option<(Seq<u8>, Seq<(u64, Seq<u8>)>)> {
    match unsigned_transaction(psbt) {
        None => None,
        Some(raw) => transaction_parts(raw),
    }
}

/// The output of a partially signed transaction that pays the competition's pool to its contract.
pub open spec fn funding_output_in(competition: Competition, psbt: Seq<char>) -> Result<
    (Seq<u8>, u32),
    ContractError,
> {
    match competition.contract_parameters {
        None => Err(ContractError::InvalidTerms),
        Some(params) => match funding_parts(psbt) {
            None => Err(ContractError::InvalidPsbt),
            Some((txid, outputs)) => match funded_at(
                params,
                competition.event_submission.total_competition_pool as u64,
                outputs,
            ) {
                Err(error) => Err(error),
                Ok(at) => if at <= u32::MAX {
                    Ok((txid, at as u32))
                } else {
                    Err(ContractError::NoFundingOutput)
                },
            },
        },
    }
}

/// The output of a partially signed transaction that pays the competition's pool to its contract.
pub fn find_funding_outpoint(competition: &Competition, psbt: &String) -> (found: Result<
    OutPoint,
    ContractError,
>)
    ensures
        match funding_output_in(*competition, psbt@) {
            Ok((txid, vout)) => found matches Ok(outpoint) && outpoint.txid@ == txid
                && outpoint.vout == vout,
            Err(error) => found matches Err(told) && told == error,
        },
{
    let params = match &competition.contract_parameters {
        Some(params) => params,
        None => {
            return Err(ContractError::InvalidTerms);
        },
    };
    let raw = match read_unsigned_transaction(psbt.as_str()) {
        Some(raw) => raw,
        None => {
            return Err(ContractError::InvalidPsbt);
        },
    };
    let parts = match decode_transaction(&raw) {
        Some(parts) => parts,
        None => {
            return Err(ContractError::InvalidPsbt);
        },
    };
    let pool: u64 = competition.event_submission.total_competition_pool as u64;
    match find_contract_output(params, pool, &parts.outputs) {
        Ok(at) => if at as u64 <= u32::MAX as u64 {
            Ok(OutPoint { txid: parts.txid, vout: at as u32 })
        } else {
            Err(ContractError::NoFundingOutput)
        },
        Err(error) => Err(error),
    }
}

/// Take over a funding transaction that was built and reserved, unless one was before: the
/// competition keeps it, and the output in it that funds the contract. That output comes back.
pub fn funding_was_reserved(competition: &mut Competition, psbt: String) -> (kept: Result<
    OutPoint,
    ContractError,
>)
    ensures
        match funding_output_in(*old(competition), psbt@) {
            Err(error) => kept == Err::<OutPoint, ContractError>(error) && *final(competition)
                == *old(competition),
            Ok((txid, vout)) => {
                &&& kept matches Ok(found) && output_view(found) == (txid, vout)
                &&& old(competition).funding_psbt_base64 is Some ==> *final(competition) == *old(
                    competition,
                )
                &&& old(competition).funding_psbt_base64 is None ==> {
                    &&& *final(competition) == (Competition {
                        funding_psbt_base64: Some(psbt),
                        funding_outpoint: final(competition).funding_outpoint,
                        ..*old(competition)
                    })
                    &&& final(competition).funding_outpoint matches Some(outpoint)
                        && outpoint.txid@ == txid && outpoint.vout == vout
                }
            },
        },
{
    match find_funding_outpoint(competition, &psbt) {
        Err(error) => Err(error),
        Ok(outpoint) => {
            let found = outpoint.duplicate();
            keep_funding_psbt(competition, psbt, outpoint);
            Ok(found)
        },
    }
}

/// Those who sent, in the order of their keys.
pub open spec fn in_key_order(sent: Seq<(Seq<u8>, int)>) -> Seq<(Seq<u8>, int)>
    decreases sent.len(),
{
    if sent.len() == 0 {
        Seq::empty()
    } else {
        put_by_key(in_key_order(sent.drop_last()), sent.last())
    }
}

/// The sender put before the first from the end whose key comes after theirs.
pub open spec fn put_by_key(ordered: Seq<(Seq<u8>, int)>, sender: (Seq<u8>, int)) -> Seq<
    (Seq<u8>, int),
>
    decreases ordered.len(),
{
    if ordered.len() > 0 && bytes_before(sender.0, ordered.last().0) {
        put_by_key(ordered.drop_last(), sender).push(ordered.last())
    } else {
        ordered.push(sender)
    }
}

/// The funding transactions that the players sent, in the order of their keys.
pub open spec fn sent_psbts(entries: Seq<UserEntry>, senders: Seq<(Seq<u8>, int)>) -> Seq<Seq<char>> {
    in_key_order(senders).map_values(
        |sender: (Seq<u8>, int)| entries[sender.1].funding_psbt_base64->0@,
    )
}

/// `ours` with what one player signed. One whose extended keys come from elsewhere adds nothing.
pub open spec fn merged_one(ours: Seq<char>, theirs: Seq<char>) -> Result<Seq<char>, SigningError> {
    match (key_sources(ours), key_sources(theirs)) {
        (Some(own), Some(sent)) => if !sources_agree(own, sent) {
            Ok(ours)
        } else {
            match combined(ours, theirs) {
                Some(text) => Ok(text),
                None => Err(SigningError::InvalidPsbt),
            }
        },
        _ => Err(SigningError::InvalidPsbt),
    }
}

/// `ours` with what each player signed, one after the other.
pub open spec fn merged(ours: Seq<char>, sent: Seq<Seq<char>>) -> Result<Seq<char>, SigningError>
    decreases sent.len(),
{
    if sent.len() == 0 {
        Ok(ours)
    } else {
        match merged(ours, sent.drop_last()) {
            Err(error) => Err(error),
            Ok(text) => merged_one(text, sent.last()),
        }
    }
}

/// The first failure stays, whatever else was sent.
proof fn merge_fault_is_final(ours: Seq<char>, sent: Seq<Seq<char>>, upto: int)
    requires
        0 <= upto <= sent.len(),
        merged(ours, sent.take(upto)) is Err,
    ensures
        merged(ours, sent) == merged(ours, sent.take(upto)),
    decreases sent.len() - upto,
{
    if upto < sent.len() {
        assert(sent.take(upto + 1).drop_last() =~= sent.take(upto));
        merge_fault_is_final(ours, sent, upto + 1);
    } else {
        assert(sent.take(upto) =~= sent);
    }
}

/// Whether a path of theirs that is shorter than ours is the end of ours.
fn do_paths_agree(ours: &Vec<u32>, theirs: &Vec<u32>) -> (agree: bool)
    ensures
        agree == paths_agree(ours@, theirs@),
{
    if theirs.len() >= ours.len() {
        return true;
    }
    let from: usize = ours.len() - theirs.len();
    let ghost end = ours@.skip(from as int);
    let mut i: usize = 0;
    while i < theirs.len()
        invariant
            i <= theirs@.len() < ours@.len() <= usize::MAX,
            from == ours@.len() - theirs@.len(),
            end == ours@.skip(from as int),
            forall|j: int| 0 <= j < i ==> end[j] == theirs@[j],
        decreases theirs@.len() - i,
    {
        assert(end[i as int] == ours@[from + i]);
        if ours[from + i] != theirs[i] {
            return false;
        }
        i = i + 1;
    }
    assert(end =~= theirs@);
    true
}

/// Whether the extended keys of `theirs` that `ours` has too come from the same place.
fn do_sources_agree(ours: &Vec<KeySource>, theirs: &Vec<KeySource>) -> (agree: bool)
    ensures
        agree == sources_agree(sources_view(ours@), sources_view(theirs@)),
{
    let ghost own = sources_view(ours@);
    let ghost sent = sources_view(theirs@);
    let mut i: usize = 0;
    while i < ours.len()
        invariant
            i <= ours@.len(),
            own == sources_view(ours@),
            sent == sources_view(theirs@),
            forall|a: int, b: int|
                0 <= a < i && 0 <= b < sent.len() && (#[trigger] own[a]).xpub == (
                #[trigger] sent[b]).xpub ==> paths_agree(own[a].path, sent[b].path),
        decreases ours@.len() - i,
    {
        let mut j: usize = 0;
        while j < theirs.len()
            invariant
                i < ours@.len(),
                j <= theirs@.len(),
                own == sources_view(ours@),
                sent == sources_view(theirs@),
                forall|b: int|
                    0 <= b < j && own[i as int].xpub == (#[trigger] sent[b]).xpub ==> paths_agree(
                        own[i as int].path,
                        sent[b].path,
                    ),
            decreases theirs@.len() - j,
        {
            assert(own[i as int] == ours@[i as int]@);
            assert(sent[j as int] == theirs@[j as int]@);
            if same_bytes(&ours[i].xpub, &theirs[j].xpub) && !do_paths_agree(
                &ours[i].path,
                &theirs[j].path,
            ) {
                return false;
            }
            j = j + 1;
        }
        i = i + 1;
    }
    true
}

/// `ours` with what one player signed.
fn merge_one(ours: String, theirs: &String) -> (text: Result<String, SigningError>)
    ensures
        match merged_one(ours@, theirs@) {
            Ok(expected) => text matches Ok(text) && text@ == expected,
            Err(error) => text matches Err(told) && told == error,
        },
{
    let (own, sent) = match (read_key_sources(ours.as_str()), read_key_sources(theirs.as_str())) {
        (Some(own), Some(sent)) => (own, sent),
        _ => {
            return Err(SigningError::InvalidPsbt);
        },
    };
    if !do_sources_agree(&own, &sent) {
        return Ok(ours);
    }
    match combine(ours.as_str(), theirs.as_str()) {
        Some(text) => Ok(text),
        None => Err(SigningError::InvalidPsbt),
    }
}

/// Those whose keys come after a sender's are put behind them.
proof fn puts_before(ordered: Seq<(Seq<u8>, int)>, sender: (Seq<u8>, int), at: int)
    requires
        0 <= at <= ordered.len(),
        forall|i: int|
            at <= i < ordered.len() ==> bytes_before(sender.0, (#[trigger] ordered[i]).0),
        at > 0 ==> !bytes_before(sender.0, ordered[at - 1].0),
    ensures
        put_by_key(ordered, sender) == ordered.insert(at, sender),
    decreases ordered.len(),
{
    if at < ordered.len() {
        puts_before(ordered.drop_last(), sender, at);
        assert(ordered.drop_last().insert(at, sender).push(ordered.last()) =~= ordered.insert(
            at,
            sender,
        ));
    } else {
        assert(ordered.insert(at, sender) =~= ordered.push(sender));
    }
}

/// Put a sender among those in the order of their keys.
fn put_sender(ordered: &mut Vec<Sender>, sender: Sender)
    ensures
        senders_view(final(ordered)@) == put_by_key(
            senders_view(old(ordered)@),
            (sender.point@, sender.entry_index as int),
        ),
        final(ordered)@.len() == old(ordered)@.len() + 1,
        forall|i: int|
            0 <= i < final(ordered)@.len() ==> (#[trigger] final(ordered)@[i]) == sender || old(
                ordered,
            )@.contains(final(ordered)@[i]),
{
    let ghost before = senders_view(ordered@);
    let ghost viewed = (sender.point@, sender.entry_index as int);
    let mut at: usize = ordered.len();
    while at > 0 && is_before(&sender.point, &ordered[at - 1].point)
        invariant
            at <= ordered@.len(),
            before == senders_view(ordered@),
            viewed == (sender.point@, sender.entry_index as int),
            forall|i: int|
                at <= i < before.len() ==> bytes_before(viewed.0, (#[trigger] before[i]).0),
        decreases at,
    {
        assert(before[at - 1].0 == ordered@[at - 1].point@);
        at = at - 1;
    }
    proof {
        if at > 0 {
            assert(before[at - 1].0 == ordered@[at - 1].point@);
        }
        puts_before(before, viewed, at as int);
    }
    let ghost was = ordered@;
    ordered.insert(at, sender);
    proof {
        assert(senders_view(ordered@) =~= before.insert(at as int, viewed));
        assert forall|i: int| 0 <= i < ordered@.len() implies (#[trigger] ordered@[i]) == sender
            || was.contains(ordered@[i]) by {
            if i < at {
                assert(ordered@[i] == was[i]);
            } else if i > at {
                assert(ordered@[i] == was[i - 1]);
            }
        }
    }
}

/// Those who sent, in the order of their keys.
fn sort_senders(senders: &Vec<Sender>) -> (ordered: Vec<Sender>)
    ensures
        senders_view(ordered@) == in_key_order(senders_view(senders@)),
        forall|i: int|
            0 <= i < ordered@.len() ==> exists|j: int|
                0 <= j < senders@.len() && (#[trigger] senders@[j]).entry_index == (
                #[trigger] ordered@[i]).entry_index,
{
    let ghost all = senders_view(senders@);
    let mut ordered: Vec<Sender> = Vec::new();
    let mut i: usize = 0;
    assert(all.take(0) =~= Seq::empty());
    assert(senders_view(ordered@) =~= Seq::empty());
    while i < senders.len()
        invariant
            i <= senders@.len(),
            all == senders_view(senders@),
            senders_view(ordered@) == in_key_order(all.take(i as int)),
            forall|k: int|
                0 <= k < ordered@.len() ==> exists|j: int|
                    0 <= j < senders@.len() && (#[trigger] senders@[j]).entry_index == (
                    #[trigger] ordered@[k]).entry_index,
        decreases senders@.len() - i,
    {
        assert(all.take(i + 1).drop_last() =~= all.take(i as int));
        assert(all[i as int] == (senders@[i as int].point@, senders@[i as int].entry_index as int));
        let ghost was = ordered@;
        let sender = Sender {
            point: copy_bytes(&senders[i].point),
            entry_index: senders[i].entry_index,
        };
        put_sender(&mut ordered, sender);
        proof {
            assert forall|k: int| 0 <= k < ordered@.len() implies exists|j: int|
                0 <= j < senders@.len() && (#[trigger] senders@[j]).entry_index == (
                #[trigger] ordered@[k]).entry_index by {
                if ordered@[k] == sender {
                    assert(senders@[i as int].entry_index == ordered@[k].entry_index);
                } else {
                    let b = choose|b: int| 0 <= b < was.len() && was[b] == ordered@[k];
                    assert(was[b].entry_index == ordered@[k].entry_index);
                }
            }
        }
        i = i + 1;
    }
    assert(all.take(i as int) =~= all);
    ordered
}

impl Coordinator {
    /// What is to be signed to fund the competition's contract: its funding transaction, where there
    /// are escrows with what every player signed.
    pub open spec fn funding_to_sign(self, competition: Competition, entries: Seq<UserEntry>) -> Result<
        Seq<char>,
        SigningError,
    > {
        match competition.funding_psbt_base64 {
            None => Err(SigningError::NoFundingPsbt),
            Some(ours) => if key_sources(ours@) is None {
                Err(SigningError::InvalidPsbt)
            } else if !self.escrow_enabled {
                Ok(ours@)
            } else {
                match all_sent(entries, |entry: UserEntry| sent_signatures(entry)) {
                    Err(error) => Err(error),
                    Ok(senders) => if senders.len() < competition.total_entries {
                        Err(SigningError::NotEnoughSignatures)
                    } else {
                        merged(ours@, sent_psbts(entries, senders))
                    },
                }
            },
        }
    }

    /// Put together what is to be signed to fund the competition's contract. Where there are
    /// escrows, every player signed their own input, and what they signed is merged in the order of
    /// their keys; without, the coordinator funds the contract alone.
    pub fn merge_funding_psbts(&self, competition: &Competition, entries: &Vec<UserEntry>) -> (psbt:
        Result<String, SigningError>)
        ensures
            match self.funding_to_sign(*competition, entries@) {
                Ok(expected) => psbt matches Ok(psbt) && psbt@ == expected,
                Err(error) => psbt matches Err(told) && told == error,
            },
    {
        let ours = match &competition.funding_psbt_base64 {
            Some(ours) => ours,
            None => {
                return Err(SigningError::NoFundingPsbt);
            },
        };
        if read_key_sources(ours.as_str()).is_none() {
            return Err(SigningError::InvalidPsbt);
        }
        if !self.escrow_enabled {
            return Ok(ours.clone());
        }
        let found = match get_final_sigs_by_sender(entries) {
            Ok(found) => found,
            Err(error) => {
                return Err(error);
            },
        };
        if (found.len() as u64) < competition.total_entries {
            return Err(SigningError::NotEnoughSignatures);
        }
        let ghost sent = |entry: UserEntry| sent_signatures(entry);
        let ghost senders = senders_view(found@);
        proof {
            senders_have_sent(entries@, sent);
            assert forall|j: int| 0 <= j < found@.len() implies (#[trigger] found@[j]).entry_index
                < entries@.len() && sent(entries@[found@[j].entry_index as int]) by {
                assert(senders[j].1 == found@[j].entry_index);
            }
        }
        let ordered = sort_senders(&found);
        let ghost psbts = sent_psbts(entries@, senders);
        let mut text = ours.clone();
        let mut i: usize = 0;
        assert(psbts.take(0) =~= Seq::empty());
        proof {
            assert forall|k: int| 0 <= k < ordered@.len() implies (#[trigger] ordered@[k]).entry_index
                < entries@.len() && entries@[ordered@[k].entry_index as int].funding_psbt_base64
                is Some by {
                let j = choose|j: int|
                    0 <= j < found@.len() && (#[trigger] found@[j]).entry_index
                        == ordered@[k].entry_index;
                assert(sent(entries@[found@[j].entry_index as int]));
            }
        }
        while i < ordered.len()
            invariant
                i <= ordered@.len(),
                competition.funding_psbt_base64 == Some(*ours),
                key_sources(ours@) is Some,
                self.escrow_enabled,
                sent == (|entry: UserEntry| sent_signatures(entry)),
                all_sent(entries@, sent) == Ok::<Seq<(Seq<u8>, int)>, SigningError>(senders),
                senders.len() >= competition.total_entries,
                senders_view(ordered@) == in_key_order(senders),
                psbts == sent_psbts(entries@, senders),
                merged(ours@, psbts.take(i as int)) == Ok::<Seq<char>, SigningError>(text@),
                forall|k: int|
                    0 <= k < ordered@.len() ==> (#[trigger] ordered@[k]).entry_index
                        < entries@.len()
                        && entries@[ordered@[k].entry_index as int].funding_psbt_base64 is Some,
            decreases ordered@.len() - i,
        {
            assert(psbts.take(i + 1).drop_last() =~= psbts.take(i as int));
            assert(in_key_order(senders)[i as int] == senders_view(ordered@)[i as int]);
            if let Some(theirs) = &entries[ordered[i].entry_index].funding_psbt_base64 {
                assert(psbts[i as int] == theirs@);
                match merge_one(text, theirs) {
                    Ok(more) => {
                        text = more;
                    },
                    Err(error) => {
                        proof {
                            merge_fault_is_final(ours@, psbts, i + 1);
                        }
                        return Err(error);
                    },
                }
            }
            i = i + 1;
        }
        assert(psbts.take(i as int) =~= psbts);
        Ok(text)
    }
}

/// What is missing of an input, by its index.
#[derive(Clone, Copy, PartialEq, Eq, Structural, Debug)]
pub enum InputIssue {
    /// An escrow that only so many have signed.
    EscrowSignatures(usize, usize),
    /// No signature at all.
    Unsigned(usize),
}

/// What is missing of an input.
pub open spec fn input_issue(input: FundingInput, at: int) -> Option<InputIssue> {
    if input.finalized {
        None
    } else if input.escrow {
        if input.partial_sigs < 2 {
            Some(InputIssue::EscrowSignatures(at as usize, input.partial_sigs))
        } else {
            None
        }
    } else if input.partial_sigs == 0 && !input.tap_key_sig {
        Some(InputIssue::Unsigned(at as usize))
    } else {
        None
    }
}

/// What is missing of all inputs, in order.
pub open spec fn input_issues(inputs: Seq<FundingInput>) -> Seq<InputIssue>
    decreases inputs.len(),
{
    if inputs.len() == 0 {
        Seq::empty()
    } else {
        let earlier = input_issues(inputs.drop_last());
        match input_issue(inputs.last(), inputs.len() - 1) {
            Some(issue) => earlier.push(issue),
            None => earlier,
        }
    }
}

/// What is missing before a funding transaction can be finalised; nothing, if it is ready.
pub fn check_funding_inputs(inputs: &Vec<FundingInput>) -> (issues: Vec<InputIssue>)
    ensures
        issues@ == input_issues(inputs@),
{
    let mut issues: Vec<InputIssue> = Vec::new();
    let mut i: usize = 0;
    assert(inputs@.take(0) =~= Seq::empty());
    while i < inputs.len()
        invariant
            i <= inputs@.len(),
            issues@ == input_issues(inputs@.take(i as int)),
        decreases inputs@.len() - i,
    {
        assert(inputs@.take(i + 1).drop_last() =~= inputs@.take(i as int));
        let input = inputs[i];
        if !input.finalized {
            if input.escrow {
                if input.partial_sigs < 2 {
                    issues.push(InputIssue::EscrowSignatures(i, input.partial_sigs));
                }
            } else if input.partial_sigs == 0 && !input.tap_key_sig {
                issues.push(InputIssue::Unsigned(i));
            }
        }
        i = i + 1;
    }
    assert(inputs@.take(i as int) =~= inputs@);
    issues
}

/// What is missing before a signed funding transaction can be finalised; nothing, if it is ready.
pub fn check_signed_psbt(psbt: &String) -> (issues: Result<Vec<InputIssue>, SigningError>)
    ensures
        match signed_inputs(psbt@) {
            Some(inputs) => issues matches Ok(issues) && issues@ == input_issues(inputs),
            None => issues matches Err(error) && error == SigningError::InvalidPsbt,
        },
{
    match read_inputs(psbt.as_str()) {
        Some(inputs) => Ok(check_funding_inputs(&inputs)),
        None => Err(SigningError::InvalidPsbt),
    }
}

/// Whether every input spends an output that there is, as far as is told.
fn do_spend_outputs(inputs: &Vec<FundingInput>) -> (spend: bool)
    ensures
        spend == spends_outputs(inputs@),
{
    let mut i: usize = 0;
    while i < inputs.len()
        invariant
            i <= inputs@.len(),
            forall|j: int| 0 <= j < i ==> !spends_nothing(#[trigger] inputs@[j]),
        decreases inputs@.len() - i,
    {
        let input = inputs[i];
        if !input.witness_utxo {
            if let Some(outputs) = input.utxo_outputs {
                if input.vout as u64 >= outputs as u64 {
                    assert(spends_nothing(inputs@[i as int]));
                    return false;
                }
            }
        }
        i = i + 1;
    }
    true
}

/// The transaction that a finalised funding transaction holds, if it can be broadcast.
pub open spec fn signed_funding(psbt: Seq<char>, finalized: bool) -> Result<Seq<u8>, SigningError> {
    if !finalized {
        Err(SigningError::NotFinalized)
    } else {
        match signed_inputs(psbt) {
            None => Err(SigningError::InvalidPsbt),
            Some(inputs) => if !spends_outputs(inputs) {
                Err(SigningError::NotExtracted)
            } else {
                match extracted(psbt) {
                    Some(raw) => Ok(raw),
                    None => Err(SigningError::NotExtracted),
                }
            },
        }
    }
}

/// Take the transaction out of a funding transaction that was finalised, or could not be.
pub fn funding_was_finalized(psbt: &String, finalized: bool) -> (signed: Result<
    Transaction,
    SigningError,
>)
    ensures
        match signed_funding(psbt@, finalized) {
            Ok(raw) => signed matches Ok(transaction) && transaction.raw@ == raw,
            Err(error) => signed matches Err(told) && told == error,
        },
{
    if !finalized {
        return Err(SigningError::NotFinalized);
    }
    match read_inputs(psbt.as_str()) {
        None => {
            return Err(SigningError::InvalidPsbt);
        },
        Some(inputs) => if !do_spend_outputs(&inputs) {
            return Err(SigningError::NotExtracted);
        },
    }
    match extract(psbt.as_str()) {
        Some(raw) => Ok(Transaction { raw }),
        None => Err(SigningError::NotExtracted),
    }
}

/// The funding transaction was broadcast: the one that was broadcast first is kept.
pub fn funding_was_broadcast(competition: &mut Competition, funding_tx: Transaction, now: Timestamp)
    ensures
        old(competition).funding_broadcasted_at is Some ==> *final(competition) == *old(
            competition,
        ),
        old(competition).funding_broadcasted_at is None ==> *final(competition) == (Competition {
            funding_broadcasted_at: Some(now),
            funding_transaction: Some(funding_tx),
            ..*old(competition)
        }),
{
    if competition.funding_broadcasted_at.is_none() {
        competition.funding_broadcasted_at = Some(now);
        competition.funding_transaction = Some(funding_tx);
    }
}


} // verus!
