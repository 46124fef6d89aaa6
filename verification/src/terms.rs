//! The terms of a contract in the text that its signers agree on, and what follows from it.

use crate::chain::{outputs_view, TxOutput};
use crate::contract::{
    attestations_view, expiry_view, player_view, players_view, points_view, ContractParameters,
    OutPoint, Player,
};
use crate::contracting::{find_funding_output, paying_output, ContractError};
use crate::dlc::{
    contract_text, event_text, funding_output, funding_output_of, nonces_match, own_nonces,
    payouts_text, player_text, session_nonces, terms_text, texts_view, write_contract,
    write_event, write_payouts, write_player, write_terms,
};
use crate::encoding::text_view;
use crate::signing::{nonce_seed, nonce_seed_of, SigningError};
use vstd::prelude::*;
use vstd::string::StrSliceExecFns;
use vstd::utf8::encode_utf8;

verus! {

/// The texts of the players, if every one of them has one.
pub open spec fn player_texts(players: Seq<(Seq<u8>, Seq<u8>, Seq<u8>)>) -> Option<Seq<Seq<char>>>
    decreases players.len(),
{
    if players.len() == 0 {
        Some(Seq::empty())
    } else {
        let last = players.last();
        match player_texts(players.drop_last()) {
            None => None,
            Some(earlier) => match player_text(last.0, last.1, last.2) {
                None => None,
                Some(text) => Some(earlier.push(text)),
            },
        }
    }
}

/// The text of a contract's terms.
pub open spec fn text_of(params: ContractParameters) -> Option<Seq<char>> {
    match player_texts(players_view(params.players@)) {
        None => None,
        Some(players) => match event_text(
            points_view(params.event.locking_points@),
            params.event.expiry,
        ) {
            None => None,
            Some(event) => match payouts_text(
                attestations_view(params.outcome_payouts.attestations),
                expiry_view(params.outcome_payouts.expiry),
            ) {
                None => None,
                Some(payouts) => terms_text(
                    params.market_maker@,
                    players,
                    event,
                    payouts,
                    params.fee_rate,
                    params.funding_value,
                    params.relative_locktime_block_delta,
                ),
            },
        },
    }
}

/// One player without a text leaves all of them without.
proof fn textless_player_is_final(players: Seq<(Seq<u8>, Seq<u8>, Seq<u8>)>, upto: int)
    requires
        0 <= upto <= players.len(),
        player_texts(players.take(upto)) is None,
    ensures
        player_texts(players) is None,
    decreases players.len() - upto,
{
    if upto < players.len() {
        assert(players.take(upto + 1).drop_last() =~= players.take(upto));
        textless_player_is_final(players, upto + 1);
    } else {
        assert(players.take(upto) =~= players);
    }
}

/// The texts of the players, if every one of them has one.
fn encode_players(players: &Vec<Player>) -> (texts: Option<Vec<String>>)
    ensures
        match player_texts(players_view(players@)) {
            Some(expected) => texts matches Some(texts) && texts_view(texts@) == expected,
            None => texts is None,
        },
{
    let ghost all = players_view(players@);
    let mut texts: Vec<String> = Vec::new();
    let mut i: usize = 0;
    assert(all.take(0) =~= Seq::empty());
    assert(texts_view(texts@) =~= Seq::empty());
    while i < players.len()
        invariant
            i <= players@.len(),
            all == players_view(players@),
            player_texts(all.take(i as int)) == Some(texts_view(texts@)),
        decreases players@.len() - i,
    {
        let player = &players[i];
        proof {
            assert(all.take(i + 1).drop_last() =~= all.take(i as int));
            assert(all.take(i + 1).last() == player_view(*player));
        }
        match write_player(&player.pubkey, &player.ticket_hash, &player.payout_hash) {
            Some(text) => {
                let ghost before = texts@;
                texts.push(text);
                assert(texts_view(texts@) =~= texts_view(before).push(text@));
            },
            None => {
                proof {
                    textless_player_is_final(all, i + 1);
                }
                return None;
            },
        }
        i = i + 1;
    }
    assert(all.take(i as int) =~= all);
    Some(texts)
}

/// The text of a contract's terms, if they can be written.
pub fn encode_terms(params: &ContractParameters) -> (text: Option<String>)
    ensures
        text_view(text) == text_of(*params),
{
    let players = encode_players(&params.players)?;
    let event = write_event(&params.event.locking_points, params.event.expiry)?;
    let payouts = write_payouts(
        &params.outcome_payouts.attestations,
        &params.outcome_payouts.expiry,
    )?;
    write_terms(
        &params.market_maker,
        &players,
        &event,
        &payouts,
        params.fee_rate,
        params.funding_value,
        params.relative_locktime_block_delta,
    )
}

/// The same terms have the same text, so all who agree on the terms sign the same contract.
pub proof fn same_terms_have_one_text(a: ContractParameters, b: ContractParameters)
    requires
        a.same_terms(b),
    ensures
        text_of(a) == text_of(b),
{
}

/// Where the outputs of a funding transaction pay the value to a contract with these terms.
pub open spec fn funded_at(
    params: ContractParameters,
    value: u64,
    outputs: Seq<(u64, Seq<u8>)>,
) -> Result<int, ContractError> {
    match text_of(params) {
        None => Err(ContractError::InvalidTerms),
        Some(text) => match funding_output_of(text) {
            None => Err(ContractError::InvalidTerms),
            Some((_, script)) => match paying_output(outputs, script, value, 0) {
                Some(at) => Ok(at),
                None => Err(ContractError::NoFundingOutput),
            },
        },
    }
}

/// The script that the funding transaction has to pay the pot to.
pub open spec fn script_of(params: ContractParameters) -> Result<Seq<u8>, ContractError> {
    match text_of(params) {
        None => Err(ContractError::InvalidTerms),
        Some(text) => match funding_output_of(text) {
            None => Err(ContractError::InvalidTerms),
            Some((_, script)) => Ok(script),
        },
    }
}

/// The script that the funding transaction has to pay the pot to.
pub fn funding_script(params: &ContractParameters) -> (script: Result<Vec<u8>, ContractError>)
    ensures
        match script_of(*params) {
            Ok(expected) => script matches Ok(script) && script@ == expected,
            Err(error) => script matches Err(told) && told == error,
        },
{
    let text = match encode_terms(params) {
        Some(text) => text,
        None => {
            return Err(ContractError::InvalidTerms);
        },
    };
    match funding_output(text.as_str()) {
        Some(output) => Ok(output.script_pubkey),
        None => Err(ContractError::InvalidTerms),
    }
}

/// The output of a funding transaction that pays the value to a contract with these terms.
pub fn find_contract_output(params: &ContractParameters, value: u64, outputs: &Vec<TxOutput>) -> (
found: Result<usize, ContractError>)
    ensures
        match funded_at(*params, value, outputs_view(outputs@)) {
            Ok(at) => found matches Ok(index) && index == at,
            Err(error) => found matches Err(told) && told == error,
        },
{
    match funding_script(params) {
        Ok(script) => find_funding_output(outputs, &script, value),
        Err(error) => Err(error),
    }
}

/// The text of the contract with these terms on this output, if it can be built.
pub open spec fn built(params: ContractParameters, txid: Seq<u8>, vout: u32) -> Result<
    Seq<char>,
    SigningError,
> {
    match text_of(params) {
        None => Err(SigningError::InvalidTerms),
        Some(terms) => match contract_text(terms, txid, vout) {
            None => Err(SigningError::InvalidContract),
            Some(contract) => Ok(contract),
        },
    }
}

/// The seed of the coordinator's nonces for a contract with these terms.
pub open spec fn seed_of(
    params: ContractParameters,
    txid: Seq<u8>,
    vout: u32,
    key: Seq<u8>,
) -> Seq<u8> {
    nonce_seed_of(txid, vout, key, encode_utf8(text_of(params)->0))
}

/// The coordinator's public nonces for a contract.
pub open spec fn nonces_of(
    params: ContractParameters,
    txid: Seq<u8>,
    vout: u32,
    key: Seq<u8>,
) -> Result<Seq<char>, SigningError> {
    match built(params, txid, vout) {
        Err(error) => Err(error),
        Ok(contract) => match session_nonces(contract, seed_of(params, txid, vout, key), key) {
            None => Err(SigningError::NoSession),
            Some(nonces) => Ok(nonces),
        },
    }
}

/// A contract that can be built: its text, and the seed of the coordinator's nonces for it.
#[derive(Debug)]
pub struct BuiltContract {
    pub text: String,
    pub seed: Vec<u8>,
}

/// The contract with these terms on this output, if it can be built. `key` is the coordinator's own.
pub fn build_contract(params: &ContractParameters, outpoint: &OutPoint, key: &Vec<u8>) -> (contract:
    Result<BuiltContract, SigningError>)
    ensures
        match built(*params, outpoint.txid@, outpoint.vout) {
            Ok(expected) => contract matches Ok(contract) && contract.text@ == expected
                && contract.seed@ == seed_of(*params, outpoint.txid@, outpoint.vout, key@),
            Err(error) => contract matches Err(told) && told == error,
        },
{
    let terms = match encode_terms(params) {
        Some(terms) => terms,
        None => {
            return Err(SigningError::InvalidTerms);
        },
    };
    match write_contract(terms.as_str(), outpoint) {
        Some(text) => {
            let seed = nonce_seed(outpoint, key, &terms.as_str().as_bytes_vec());
            Ok(BuiltContract { text, seed })
        },
        None => Err(SigningError::InvalidContract),
    }
}

/// The coordinator's public nonces for a contract. They are the same every time, since the seed that
/// they are drawn with is.
pub fn contract_nonces(params: &ContractParameters, outpoint: &OutPoint, key: &Vec<u8>) -> (nonces:
    Result<String, SigningError>)
    ensures
        match nonces_of(*params, outpoint.txid@, outpoint.vout, key@) {
            Ok(expected) => nonces matches Ok(nonces) && nonces@ == expected && nonces_match(
                nonces@,
                nonces@,
            ),
            Err(error) => nonces matches Err(told) && told == error,
        },
{
    let contract = match build_contract(params, outpoint, key) {
        Ok(contract) => contract,
        Err(error) => {
            return Err(error);
        },
    };
    match own_nonces(contract.text.as_str(), &contract.seed, key) {
        Some(nonces) => Ok(nonces),
        None => Err(SigningError::NoSession),
    }
}

} // verus!
