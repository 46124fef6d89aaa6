//! Signing a competition's contract: the coordinator's side of the players' signing session.
//!
//! The coordinator's secret nonces are never stored. Each step draws them again from the seed that
//! the contract gives, checks that they are the ones that were published, and goes on from there.

use crate::chain::output_view;
use crate::clock::Timestamp;
use crate::competition::Competition;
use crate::contract::{ContractParameters, OutPoint, SigMap, SignedContract};
use crate::contracting::contract_was_built;
use crate::dlc::{
    accept_signatures, accepted_contract, aggregate_nonces, combine_signatures, combined_contract,
    do_nonces_match, do_partial_signatures_match, do_signatures_verify, nonces_match,
    partial_signatures_match, session_signatures, signatures_verify,
};
use crate::encoding::{copy_bytes, hex_encode, hex_text, text_view};
use crate::entries::UserEntry;
use crate::lifecycle::Coordinator;
use crate::signing::{
    all_sent, contract_was_signed, get_final_sigs_by_sender, get_received_nonces,
    nonces_were_aggregated, senders, senders_have_sent, senders_view, sent_nonces, sent_signatures,
    SigningError, SigningPath,
};
use crate::terms::{build_contract, built, contract_nonces, nonces_of, seed_of, BuiltContract};
use vstd::prelude::*;
use vstd::string::StringExecFns;

verus! {

/// What signers sent, each under their compressed key.
pub open spec fn sent_view(sent: Seq<(Vec<u8>, String)>) -> Seq<(Seq<u8>, Seq<char>)> {
    sent.map_values(|pair: (Vec<u8>, String)| (pair.0@, pair.1@))
}

/// The members of an object in JSON: what each signer sent, under their key in hexadecimal.
pub open spec fn members(sent: Seq<(Seq<u8>, Seq<char>)>) -> Seq<char>
    decreases sent.len(),
{
    if sent.len() == 0 {
        Seq::empty()
    } else {
        let earlier = members(sent.drop_last());
        let before = if sent.len() > 1 {
            earlier + ","@
        } else {
            earlier
        };
        before + "\""@ + hex_text(sent.last().0) + "\":"@ + sent.last().1
    }
}

/// An object in JSON: what each signer sent, under their key in hexadecimal.
pub open spec fn by_key(sent: Seq<(Seq<u8>, Seq<char>)>) -> Seq<char> {
    "{"@ + members(sent) + "}"@
}

/// An object in JSON: what each signer sent, under their key in hexadecimal.
pub(crate) fn gather(sent: &Vec<(Vec<u8>, String)>) -> (text: String)
    ensures
        text@ == by_key(sent_view(sent@)),
{
    let ghost all = sent_view(sent@);
    let mut text = "{".to_owned();
    let mut i: usize = 0;
    assert(all.take(0) =~= Seq::empty());
    assert("{"@ + members(all.take(0)) =~= "{"@);
    while i < sent.len()
        invariant
            i <= sent@.len(),
            all == sent_view(sent@),
            text@ == "{"@ + members(all.take(i as int)),
        decreases sent@.len() - i,
    {
        let (signer, value) = &sent[i];
        let ghost before = text@;
        proof {
            assert(all.take(i + 1).drop_last() =~= all.take(i as int));
            assert(all.take(i + 1).last() == (signer@, value@));
        }
        if i > 0 {
            text.append(",");
        }
        text.append("\"");
        text.append(hex_encode(signer).as_str());
        text.append("\":");
        text.append(value.as_str());
        i = i + 1;
        assert(text@ =~= "{"@ + members(all.take(i as int)));
    }
    assert(all.take(i as int) =~= all);
    text.append("}");
    text
}

/// The nonces that the senders sent, each under their key.
pub open spec fn nonces_sent(entries: Seq<UserEntry>, senders: Seq<(Seq<u8>, int)>) -> Seq<
    (Seq<u8>, Seq<char>),
> {
    Seq::new(
        senders.len(),
        |i: int| (senders[i].0, (entries[senders[i].1].public_nonces->0).text()),
    )
}

/// The partial signatures that the senders sent, each under their key.
pub open spec fn signatures_sent(entries: Seq<UserEntry>, senders: Seq<(Seq<u8>, int)>) -> Seq<
    (Seq<u8>, Seq<char>),
> {
    Seq::new(
        senders.len(),
        |i: int| (senders[i].0, (entries[senders[i].1].partial_signatures->0).text()),
    )
}

/// Where a signing session stands once the nonces of all players are there: the text of the
/// contract, and that of the nonces.
pub open spec fn round_of(
    params: ContractParameters,
    outpoint: OutPoint,
    published: SigMap,
    entries: Seq<UserEntry>,
    key: Seq<u8>,
) -> Result<(Seq<char>, Seq<char>), SigningError> {
    match nonces_of(params, outpoint.txid@, outpoint.vout, key) {
        Err(error) => Err(error),
        Ok(nonces) => if !nonces_match(nonces, published.text()) {
            Err(SigningError::NonceMismatch)
        } else {
            match all_sent(entries, |entry: UserEntry| sent_nonces(entry)) {
                Err(error) => Err(error),
                Ok(senders) => Ok(
                    (
                        built(params, outpoint.txid@, outpoint.vout)->Ok_0,
                        by_key(nonces_sent(entries, senders)),
                    ),
                ),
            }
        },
    }
}

/// The aggregated nonces and the coordinator's partial signatures.
pub open spec fn aggregate_of(
    params: ContractParameters,
    outpoint: OutPoint,
    published: SigMap,
    entries: Seq<UserEntry>,
    key: Seq<u8>,
) -> Result<(Seq<char>, Seq<char>), SigningError> {
    match round_of(params, outpoint, published, entries, key) {
        Err(error) => Err(error),
        Ok((contract, nonces)) => match session_signatures(
            contract,
            seed_of(params, outpoint.txid@, outpoint.vout, key),
            key,
            nonces,
        ) {
            None => Err(SigningError::NotAggregated),
            Some(made) => Ok(made),
        },
    }
}

/// The first of the signers from the `from`th on whose signatures do not verify.
pub open spec fn first_unverified(
    contract: Seq<char>,
    seed: Seq<u8>,
    key: Seq<u8>,
    nonces: Seq<char>,
    sent: Seq<(Seq<u8>, Seq<char>)>,
    from: int,
) -> Option<usize>
    decreases sent.len() - from,
{
    if from < 0 || from >= sent.len() {
        None
    } else if !signatures_verify(contract, seed, key, nonces, sent[from].0, sent[from].1) {
        Some(from as usize)
    } else {
        first_unverified(contract, seed, key, nonces, sent, from + 1)
    }
}

/// The contract that the players' partial signatures combine to with the coordinator's own. The
/// coordinator's have to be those that it made before, and each player's have to verify.
pub open spec fn combined_of(
    params: ContractParameters,
    outpoint: OutPoint,
    published: SigMap,
    ours: SigMap,
    entries: Seq<UserEntry>,
    key: Seq<u8>,
) -> Result<Seq<char>, SigningError> {
    match aggregate_of(params, outpoint, published, entries, key) {
        Err(error) => Err(error),
        Ok((_, made)) => if !partial_signatures_match(made, ours.text()) {
            Err(SigningError::PartialSignatureMismatch)
        } else {
            match all_sent(entries, |entry: UserEntry| sent_signatures(entry)) {
                Err(error) => Err(error),
                Ok(senders) => {
                    let (contract, nonces) = round_of(
                        params,
                        outpoint,
                        published,
                        entries,
                        key,
                    )->Ok_0;
                    let seed = seed_of(params, outpoint.txid@, outpoint.vout, key);
                    let sent = signatures_sent(entries, senders);
                    match first_unverified(contract, seed, key, nonces, sent, 0) {
                        Some(at) => Err(SigningError::InvalidSignatures(at)),
                        None => match combined_contract(contract, seed, key, nonces, by_key(sent)) {
                            None => Err(SigningError::NotCombined),
                            Some(contract) => Ok(contract),
                        },
                    }
                },
            }
        },
    }
}

/// The nonces of every entry, each under its key.
fn receive_nonces(entries: &Vec<UserEntry>) -> (received: Result<
    Vec<(Vec<u8>, String)>,
    SigningError,
>)
    ensures
        match all_sent(entries@, |entry: UserEntry| sent_nonces(entry)) {
            Ok(senders) => received matches Ok(received) && sent_view(received@) == nonces_sent(
                entries@,
                senders,
            ),
            Err(error) => received matches Err(told) && told == error,
        },
{
    let found = match get_received_nonces(entries) {
        Ok(found) => found,
        Err(error) => {
            return Err(error);
        },
    };
    let ghost sent = |entry: UserEntry| sent_nonces(entry);
    proof {
        senders_have_sent(entries@, sent);
        assert forall|j: int| 0 <= j < found@.len() implies (#[trigger] found@[j]).entry_index
            < entries@.len() && sent(entries@[found@[j].entry_index as int]) by {
            assert(senders(entries@, sent)->Ok_0[j] == senders_view(found@)[j]);
        }
    }
    let mut received: Vec<(Vec<u8>, String)> = Vec::new();
    let mut i: usize = 0;
    while i < found.len()
        invariant
            i <= found@.len(),
            sent == (|entry: UserEntry| sent_nonces(entry)),
            forall|j: int|
                0 <= j < found@.len() ==> (#[trigger] found@[j]).entry_index < entries@.len()
                    && entries@[found@[j].entry_index as int].public_nonces is Some,
            received@.len() == i,
            forall|j: int|
                0 <= j < i ==> (#[trigger] received@[j]).0@ == found@[j].point@ && received@[j].1@
                    == (entries@[found@[j].entry_index as int].public_nonces->0).text(),
        decreases found@.len() - i,
    {
        let sender = &found[i];
        if let Some(nonces) = &entries[sender.entry_index].public_nonces {
            received.push((copy_bytes(&sender.point), nonces.as_text().to_owned()));
        }
        i = i + 1;
    }
    assert(sent_view(received@) =~= nonces_sent(entries@, senders_view(found@)));
    Ok(received)
}

/// The partial signatures of every entry, each under its key.
fn receive_signatures(entries: &Vec<UserEntry>) -> (received: Result<
    Vec<(Vec<u8>, String)>,
    SigningError,
>)
    ensures
        match all_sent(entries@, |entry: UserEntry| sent_signatures(entry)) {
            Ok(senders) => received matches Ok(received) && sent_view(received@)
                == signatures_sent(entries@, senders),
            Err(error) => received matches Err(told) && told == error,
        },
{
    let found = match get_final_sigs_by_sender(entries) {
        Ok(found) => found,
        Err(error) => {
            return Err(error);
        },
    };
    let ghost sent = |entry: UserEntry| sent_signatures(entry);
    proof {
        senders_have_sent(entries@, sent);
        assert forall|j: int| 0 <= j < found@.len() implies (#[trigger] found@[j]).entry_index
            < entries@.len() && sent(entries@[found@[j].entry_index as int]) by {
            assert(senders(entries@, sent)->Ok_0[j] == senders_view(found@)[j]);
        }
    }
    let mut received: Vec<(Vec<u8>, String)> = Vec::new();
    let mut i: usize = 0;
    while i < found.len()
        invariant
            i <= found@.len(),
            sent == (|entry: UserEntry| sent_signatures(entry)),
            forall|j: int|
                0 <= j < found@.len() ==> (#[trigger] found@[j]).entry_index < entries@.len()
                    && entries@[found@[j].entry_index as int].partial_signatures is Some,
            received@.len() == i,
            forall|j: int|
                0 <= j < i ==> (#[trigger] received@[j]).0@ == found@[j].point@ && received@[j].1@
                    == (entries@[found@[j].entry_index as int].partial_signatures->0).text(),
        decreases found@.len() - i,
    {
        let sender = &found[i];
        if let Some(signatures) = &entries[sender.entry_index].partial_signatures {
            received.push((copy_bytes(&sender.point), signatures.as_text().to_owned()));
        }
        i = i + 1;
    }
    assert(sent_view(received@) =~= signatures_sent(entries@, senders_view(found@)));
    Ok(received)
}

/// Where a signing session stands once the nonces of all players are there.
struct Round {
    contract: BuiltContract,
    nonces: String,
}

/// Take up the signing session again: the nonces that are drawn again have to be the published
/// ones, and every player's have to be there.
fn resume_round(
    params: &ContractParameters,
    outpoint: &OutPoint,
    published: &SigMap,
    entries: &Vec<UserEntry>,
    key: &Vec<u8>,
) -> (round: Result<Round, SigningError>)
    ensures
        match round_of(*params, *outpoint, *published, entries@, key@) {
            Ok(expected) => round matches Ok(round) && {
                &&& (round.contract.text@, round.nonces@) == expected
                &&& round.contract.seed@ == seed_of(*params, outpoint.txid@, outpoint.vout, key@)
            },
            Err(error) => round matches Err(told) && told == error,
        },
{
    let nonces = match contract_nonces(params, outpoint, key) {
        Ok(nonces) => nonces,
        Err(error) => {
            return Err(error);
        },
    };
    match do_nonces_match(nonces.as_str(), published.as_text()) {
        Some(true) => {},
        _ => {
            return Err(SigningError::NonceMismatch);
        },
    }
    let received = match receive_nonces(entries) {
        Ok(received) => received,
        Err(error) => {
            return Err(error);
        },
    };
    let contract = match build_contract(params, outpoint, key) {
        Ok(contract) => contract,
        Err(error) => {
            return Err(error);
        },
    };
    Ok(Round { contract, nonces: gather(&received) })
}

/// The contract that all signatures combine to.
fn combine(round: &Round, entries: &Vec<UserEntry>, key: &Vec<u8>) -> (signed: Result<
    String,
    SigningError,
>)
    ensures
        match all_sent(entries@, |entry: UserEntry| sent_signatures(entry)) {
            Err(error) => signed matches Err(told) && told == error,
            Ok(senders) => {
                let contract = round.contract.text@;
                let seed = round.contract.seed@;
                let sent = signatures_sent(entries@, senders);
                match first_unverified(contract, seed, key@, round.nonces@, sent, 0) {
                    Some(at) => signed matches Err(error) && error
                        == SigningError::InvalidSignatures(at),
                    None => match combined_contract(
                        contract,
                        seed,
                        key@,
                        round.nonces@,
                        by_key(sent),
                    ) {
                        None => signed matches Err(error) && error == SigningError::NotCombined,
                        Some(expected) => signed matches Ok(signed) && signed@ == expected,
                    },
                }
            },
        },
{
    let sent = match receive_signatures(entries) {
        Ok(sent) => sent,
        Err(error) => {
            return Err(error);
        },
    };
    let contract = round.contract.text.as_str();
    let seed = &round.contract.seed;
    let nonces = round.nonces.as_str();
    let ghost all = sent_view(sent@);
    let mut i: usize = 0;
    while i < sent.len()
        invariant
            i <= sent@.len(),
            contract@ == round.contract.text@,
            *seed == round.contract.seed,
            nonces@ == round.nonces@,
            all == sent_view(sent@),
            all_sent(entries@, |entry: UserEntry| sent_signatures(entry)) matches Ok(senders) && all
                == signatures_sent(entries@, senders),
            first_unverified(contract@, seed@, key@, nonces@, all, 0) == first_unverified(
                contract@,
                seed@,
                key@,
                nonces@,
                all,
                i as int,
            ),
        decreases sent@.len() - i,
    {
        let (signer, signatures) = &sent[i];
        assert(all[i as int] == (signer@, signatures@));
        match do_signatures_verify(contract, seed, key, nonces, signer, signatures.as_str()) {
            Some(true) => {},
            _ => {
                return Err(SigningError::InvalidSignatures(i));
            },
        }
        i = i + 1;
    }
    match combine_signatures(contract, seed, key, nonces, gather(&sent).as_str()) {
        Some(signed) => Ok(signed),
        None => Err(SigningError::NotCombined),
    }
}

impl Coordinator {
    /// The nonces that the coordinator publishes for a competition's contract on the output that
    /// funds it: none of its own where Keymeld signs.
    pub open spec fn nonces_to_publish(
        self,
        competition: Competition,
        outpoint: (Seq<u8>, u32),
        key: Seq<u8>,
    ) -> Result<Seq<char>, SigningError> {
        match competition.contract_parameters {
            None => Err(SigningError::NoParameters),
            Some(params) => match built(params, outpoint.0, outpoint.1) {
                Err(error) => Err(error),
                Ok(_) => if self.keymeld_enabled {
                    Ok(SigMap::Empty.text())
                } else {
                    nonces_of(params, outpoint.0, outpoint.1, key)
                },
            },
        }
    }

    /// Finish a contract whose terms are kept on the output that funds it: it has to build, and the
    /// coordinator's nonces are published, unless they were before. `key` is the coordinator's own.
    pub fn publish_nonces(
        &self,
        competition: &mut Competition,
        outpoint: &OutPoint,
        key: &Vec<u8>,
        now: Timestamp,
    ) -> (published: Result<(), SigningError>)
        ensures
            match self.nonces_to_publish(*old(competition), output_view(*outpoint), key@) {
                Err(error) => published == Err::<(), SigningError>(error) && *final(competition)
                    == *old(competition),
                Ok(nonces) => {
                    &&& published is Ok
                    &&& final(competition).errors@.len() == 0
                    &&& *final(competition) == (Competition {
                        public_nonces: final(competition).public_nonces,
                        contracted_at: Some(now),
                        errors: final(competition).errors,
                        ..*old(competition)
                    })
                    &&& keeps_or_takes(
                        old(competition).public_nonces,
                        final(competition).public_nonces,
                        nonces,
                    )
                    &&& !self.keymeld_enabled && old(competition).public_nonces is None ==> is_drawn(
                        old(competition).contract_parameters->0,
                        output_view(*outpoint),
                        final(competition).public_nonces->0,
                        key@,
                    )
                },
            },
    {
        let own = match &competition.contract_parameters {
            None => {
                return Err(SigningError::NoParameters);
            },
            Some(params) => if self.keymeld_enabled {
                match build_contract(params, outpoint, key) {
                    Ok(_) => None,
                    Err(error) => {
                        return Err(error);
                    },
                }
            } else {
                match contract_nonces(params, outpoint, key) {
                    Ok(nonces) => Some(SigMap::Stored(nonces)),
                    Err(error) => {
                        return Err(error);
                    },
                }
            },
        };
        contract_was_built(competition, own, now);
        Ok(())
    }

    /// What the nonces of a competition aggregate to, and the partial signatures that the
    /// coordinator makes with them. Keymeld keeps its own.
    pub open spec fn aggregated(
        self,
        competition: Competition,
        entries: Seq<UserEntry>,
        key: Seq<u8>,
    ) -> Result<Option<(Seq<char>, Seq<char>)>, SigningError> {
        match self.aggregation_path_of(competition) {
            Err(error) => Err(error),
            Ok(SigningPath::Keymeld) => Ok(None),
            Ok(SigningPath::Aggregate) => match aggregate_of(
                competition.contract_parameters->0,
                competition.funding_outpoint->0,
                competition.public_nonces->0,
                entries,
                key,
            ) {
                Err(error) => Err(error),
                Ok(made) => Ok(Some(made)),
            },
        }
    }

    /// Aggregate the players' nonces and make the coordinator's partial signatures. What was made
    /// first is kept, since a nonce must only ever sign once. `key` is the coordinator's own.
    pub fn generate_aggregate_nonces_and_coord_partial_signatures(
        &self,
        competition: &mut Competition,
        entries: &Vec<UserEntry>,
        key: &Vec<u8>,
    ) -> (made: Result<(), SigningError>)
        ensures
            match self.aggregated(*old(competition), entries@, key@) {
                Err(error) => made == Err::<(), SigningError>(error) && *final(competition)
                    == *old(competition),
                Ok(aggregated) => {
                    &&& made is Ok
                    &&& final(competition).errors@.len() == 0
                    &&& *final(competition) == (Competition {
                        aggregated_nonces: final(competition).aggregated_nonces,
                        partial_signatures: final(competition).partial_signatures,
                        errors: final(competition).errors,
                        ..*old(competition)
                    })
                    &&& keeps_or_takes(
                        old(competition).aggregated_nonces,
                        final(competition).aggregated_nonces,
                        match aggregated {
                            Some(texts) => texts.0,
                            None => SigMap::Empty.text(),
                        },
                    )
                    &&& keeps_or_takes(
                        old(competition).partial_signatures,
                        final(competition).partial_signatures,
                        match aggregated {
                            Some(texts) => texts.1,
                            None => SigMap::Empty.text(),
                        },
                    )
                    &&& aggregated is Some && old(competition).partial_signatures is None
                        ==> partial_signatures_match(
                        (aggregated->0).1,
                        (final(competition).partial_signatures->0).text(),
                    )
                },
            },
    {
        match self.aggregation_path(competition) {
            Err(error) => {
                return Err(error);
            },
            Ok(SigningPath::Keymeld) => {
                nonces_were_aggregated(competition, SigMap::Empty, SigMap::Empty);
                return Ok(());
            },
            Ok(SigningPath::Aggregate) => {},
        }
        let made = match (
            &competition.contract_parameters,
            &competition.funding_outpoint,
            &competition.public_nonces,
        ) {
            (Some(params), Some(outpoint), Some(published)) => {
                aggregate(params, outpoint, published, entries, key)
            },
            _ => Err(SigningError::NoNonces),
        };
        match made {
            Err(error) => Err(error),
            Ok((_, aggregated, ours)) => {
                nonces_were_aggregated(
                    competition,
                    SigMap::Stored(aggregated),
                    SigMap::Stored(ours),
                );
                Ok(())
            },
        }
    }

    /// The contract that is signed for a competition. Where Keymeld signs, its signatures are given
    /// and have to be a whole and valid set.
    pub open spec fn signed(
        self,
        competition: Competition,
        entries: Seq<UserEntry>,
        key: Seq<u8>,
        keymeld_signatures: Option<Seq<char>>,
    ) -> Result<Seq<char>, SigningError> {
        if competition.contract_parameters is None {
            Err(SigningError::NoParameters)
        } else if competition.funding_outpoint is None {
            Err(SigningError::NoOutpoint)
        } else {
            let params = competition.contract_parameters->0;
            let outpoint = competition.funding_outpoint->0;
            match built(params, outpoint.txid@, outpoint.vout) {
                Err(error) => Err(error),
                Ok(built) => match self.signing_path_of(competition) {
                    Err(error) => Err(error),
                    Ok(SigningPath::Keymeld) => match keymeld_signatures {
                        None => Err(SigningError::NoKeymeldSignatures),
                        Some(signatures) => match accepted_contract(built, signatures) {
                            None => Err(SigningError::InvalidKeymeldSignatures),
                            Some(contract) => Ok(contract),
                        },
                    },
                    Ok(SigningPath::Aggregate) => combined_of(
                        params,
                        outpoint,
                        competition.public_nonces->0,
                        competition.partial_signatures->0,
                        entries,
                        key,
                    ),
                },
            }
        }
    }

    /// The contract that is signed for a competition.
    fn sign(
        &self,
        competition: &Competition,
        entries: &Vec<UserEntry>,
        key: &Vec<u8>,
        keymeld_signatures: &Option<String>,
    ) -> (contract: Result<SignedContract, SigningError>)
        ensures
            match self.signed(*competition, entries@, key@, text_view(*keymeld_signatures)) {
                Err(error) => contract matches Err(told) && told == error,
                Ok(expected) => contract matches Ok(contract) && {
                    &&& contract.encoded@ == expected
                    &&& contract.params.same_terms(competition.contract_parameters->0)
                    &&& contract.funding_outpoint.txid@ == (competition.funding_outpoint->0).txid@
                    &&& contract.funding_outpoint.vout == (competition.funding_outpoint->0).vout
                },
            },
    {
        let params = match &competition.contract_parameters {
            Some(params) => params,
            None => {
                return Err(SigningError::NoParameters);
            },
        };
        let outpoint = match &competition.funding_outpoint {
            Some(outpoint) => outpoint,
            None => {
                return Err(SigningError::NoOutpoint);
            },
        };
        let built = match build_contract(params, outpoint, key) {
            Ok(built) => built,
            Err(error) => {
                return Err(error);
            },
        };
        let encoded = match self.signing_path(competition) {
            Err(error) => {
                return Err(error);
            },
            Ok(SigningPath::Keymeld) => match keymeld_signatures {
                None => {
                    return Err(SigningError::NoKeymeldSignatures);
                },
                Some(signatures) => match accept_signatures(
                    built.text.as_str(),
                    signatures.as_str(),
                ) {
                    Some(contract) => contract,
                    None => {
                        return Err(SigningError::InvalidKeymeldSignatures);
                    },
                },
            },
            Ok(SigningPath::Aggregate) => match (
                &competition.public_nonces,
                &competition.partial_signatures,
            ) {
                (Some(published), Some(ours)) => {
                    let round = match aggregate(params, outpoint, published, entries, key) {
                        Ok((round, _, made)) => {
                            match do_partial_signatures_match(made.as_str(), ours.as_text()) {
                                Some(true) => round,
                                _ => {
                                    return Err(SigningError::PartialSignatureMismatch);
                                },
                            }
                        },
                        Err(error) => {
                            return Err(error);
                        },
                    };
                    match combine(&round, entries, key) {
                        Ok(contract) => contract,
                        Err(error) => {
                            return Err(error);
                        },
                    }
                },
                _ => {
                    return Err(SigningError::NoNonces);
                },
            },
        };
        Ok(
            SignedContract {
                params: params.duplicate(),
                funding_outpoint: outpoint.duplicate(),
                encoded,
            },
        )
    }

    /// Sign a competition's contract. The one that was signed first is kept. `key` is the
    /// coordinator's own; `keymeld_signatures` are what Keymeld signed, in the contract's text.
    pub fn sign_dlc_contract(
        &self,
        competition: &mut Competition,
        entries: &Vec<UserEntry>,
        key: &Vec<u8>,
        keymeld_signatures: &Option<String>,
        now: Timestamp,
    ) -> (signed: Result<(), SigningError>)
        ensures
            match self.signed(*old(competition), entries@, key@, text_view(*keymeld_signatures)) {
                Err(error) => signed == Err::<(), SigningError>(error) && *final(competition)
                    == *old(competition),
                Ok(contract) => {
                    &&& signed is Ok
                    &&& final(competition).errors@.len() == 0
                    &&& old(competition).signed_contract is Some ==> *final(competition) == (
                    Competition { errors: final(competition).errors, ..*old(competition) })
                    &&& old(competition).signed_contract is None ==> {
                        &&& *final(competition) == (Competition {
                            signed_contract: final(competition).signed_contract,
                            signed_at: Some(now),
                            errors: final(competition).errors,
                            ..*old(competition)
                        })
                        &&& final(competition).signed_contract matches Some(kept)
                        &&& kept.encoded@ == contract
                        &&& kept.params.same_terms(old(competition).contract_parameters->0)
                        &&& kept.funding_outpoint.txid@ == (old(
                            competition,
                        ).funding_outpoint->0).txid@
                        &&& kept.funding_outpoint.vout == (old(
                            competition,
                        ).funding_outpoint->0).vout
                    }
                },
            },
    {
        match self.sign(competition, entries, key, keymeld_signatures) {
            Ok(contract) => {
                contract_was_signed(competition, contract, now);
                Ok(())
            },
            Err(error) => Err(error),
        }
    }
}

/// What was kept stays; where nothing was, the text is taken.
pub open spec fn keeps_or_takes(kept: Option<SigMap>, now: Option<SigMap>, text: Seq<char>) -> bool {
    match kept {
        Some(kept) => now == Some(kept),
        None => now matches Some(taken) && taken.text() == text,
    }
}

/// The aggregated nonces and the coordinator's partial signatures, and the session that they were
/// made in.
fn aggregate(
    params: &ContractParameters,
    outpoint: &OutPoint,
    published: &SigMap,
    entries: &Vec<UserEntry>,
    key: &Vec<u8>,
) -> (made: Result<(Round, String, String), SigningError>)
    ensures
        match aggregate_of(*params, *outpoint, *published, entries@, key@) {
            Ok(expected) => made matches Ok(made) && {
                &&& (made.1@, made.2@) == expected
                &&& partial_signatures_match(made.2@, made.2@)
                &&& round_of(*params, *outpoint, *published, entries@, key@) == Ok::<
                    (Seq<char>, Seq<char>),
                    SigningError,
                >((made.0.contract.text@, made.0.nonces@))
                &&& made.0.contract.seed@ == seed_of(
                    *params,
                    outpoint.txid@,
                    outpoint.vout,
                    key@,
                )
            },
            Err(error) => made matches Err(told) && told == error,
        },
{
    let round = match resume_round(params, outpoint, published, entries, key) {
        Ok(round) => round,
        Err(error) => {
            return Err(error);
        },
    };
    let built = &round.contract;
    match aggregate_nonces(built.text.as_str(), &built.seed, key, round.nonces.as_str()) {
        Some((aggregated, ours)) => Ok((round, aggregated, ours)),
        None => Err(SigningError::NotAggregated),
    }
}

/// The coordinator's partial signatures are made once: whatever is made in a later attempt, those
/// that were kept stay, so its nonces never sign twice.
pub proof fn signatures_are_made_once(
    first: Option<SigMap>,
    second: Option<SigMap>,
    third: Option<SigMap>,
    made: Seq<char>,
    made_again: Seq<char>,
)
    requires
        keeps_or_takes(first, second, made),
        keeps_or_takes(second, third, made_again),
    ensures
        second is Some,
        third == second,
{
}

/// The nonces that are drawn for a contract are the published ones.
pub open spec fn is_drawn(
    params: ContractParameters,
    outpoint: (Seq<u8>, u32),
    published: SigMap,
    key: Seq<u8>,
) -> bool {
    nonces_of(params, outpoint.0, outpoint.1, key) matches Ok(nonces) && nonces_match(
        nonces,
        published.text(),
    )
}

/// The nonces that were published for a contract are drawn again with the same key, so a signing
/// session that was interrupted is taken up where it was.
pub proof fn published_nonces_are_drawn_again(
    params: ContractParameters,
    outpoint: OutPoint,
    published: SigMap,
    entries: Seq<UserEntry>,
    key: Seq<u8>,
)
    requires
        is_drawn(params, output_view(outpoint), published, key),
    ensures
        match all_sent(entries, |entry: UserEntry| sent_nonces(entry)) {
            Ok(senders) => round_of(params, outpoint, published, entries, key) is Ok,
            Err(error) => round_of(params, outpoint, published, entries, key) == Err::<
                (Seq<char>, Seq<char>),
                SigningError,
            >(error),
        },
{
}

} // verus!
