//! The transactions that enforce a signed contract: the outcome's, the one that splits it, and those
//! that sweep what is left to the market maker.

use crate::competition::Competition;
use crate::contract::{Outcome, SignedContract, Transaction};
use crate::contract_signing::{by_key, gather, sent_view};
use crate::dlc_spends::{
    close_weight, closed_outcome, closed_share, closed_split, closing_weight, expiry_transaction,
    expiry_tx, outcome_close_input, outcome_output, outcome_transaction,
    reclaim_weight, reclaimed_share, reclaimed_split, reclaiming_weight, sign_outcome_close,
    sign_split_close, sign_split_reclaim, signed_outcome_tx, signed_split_tx, split_close_input,
    spent_view, split_reclaim_input, split_transaction, SpentOutput, SpentOutputView,
};
use crate::encoding::{
    bytes_view, hex_bytes, hex_decode, hex_encode, hex_text, is_hex, point_from_hex, point_of_hex,
    scalar_from_hex, scalar_of_hex,
};
use crate::entries::{Ticket, UserEntry};
use crate::outcome::{outcome_plan, plan_outcome_transaction, OutcomePlan};
use crate::settlement::{SettlementError, Winner};
use crate::signing::{append_bytes, le_bytes};
use vstd::prelude::*;
use vstd::string::StringExecFns;

verus! {

/// The index of what the oracle attested to, or nothing where the contract expired.
pub open spec fn attested_index(outcome: Outcome) -> Option<usize> {
    match outcome {
        Outcome::Attestation(index) => Some(index),
        Outcome::Expiry => None,
    }
}

/// The index of what the oracle attested to, or nothing where the contract expired.
fn index_of(outcome: Outcome) -> (index: Option<usize>)
    ensures
        index == attested_index(outcome),
{
    match outcome {
        Outcome::Attestation(index) => Some(index),
        Outcome::Expiry => None,
    }
}

/// The script that pays to a key by taproot, as it is: version one, and the key's x coordinate.
pub open spec fn p2tr_script(pubkey: Seq<u8>) -> Seq<u8> {
    seq![0x51u8, 0x20u8] + pubkey.skip(1)
}

/// The script that pays to a compressed key by taproot, as it is.
pub fn p2tr_script_pubkey(pubkey: &Vec<u8>) -> (script: Vec<u8>)
    requires
        pubkey@.len() == 33,
    ensures
        script@ == p2tr_script(pubkey@),
        script@.len() == 34,
{
    let mut script: Vec<u8> = Vec::new();
    script.push(0x51);
    script.push(0x20);
    let mut i: usize = 1;
    while i < pubkey.len()
        invariant
            1 <= i <= pubkey@.len(),
            pubkey@.len() == 33,
            script@ == seq![0x51u8, 0x20u8] + pubkey@.subrange(1, i as int),
        decreases pubkey@.len() - i,
    {
        let ghost before = script@;
        script.push(pubkey[i]);
        assert(script@ =~= seq![0x51u8, 0x20u8] + pubkey@.subrange(1, i + 1));
        i = i + 1;
    }
    assert(pubkey@.subrange(1, i as int) =~= pubkey@.skip(1));
    script
}

/// The fee of a transaction with this weight, in satoshis, at a rate in satoshis per thousand weight
/// units. A part of a satoshi counts as a whole one.
pub open spec fn sweep_fee(weight: u64, fee_rate: u64) -> int {
    (fee_rate * weight + 999) / 1000
}

/// The eight bytes of a number, the lowest first.
pub open spec fn le_bytes8(n: u64) -> Seq<u8> {
    le_bytes((n % 4294967296) as u32) + le_bytes((n / 4294967296) as u32)
}

/// The consensus encoding of an unsigned transaction of the second version that spends one output
/// and pays one, and can be mined at once.
pub open spec fn sweep_encoding(
    txid: Seq<u8>,
    vout: u32,
    sequence: u32,
    value: u64,
    script: Seq<u8>,
) -> Seq<u8> {
    le_bytes(2) + seq![1u8] + txid + le_bytes(vout) + seq![0u8] + le_bytes(sequence) + seq![1u8]
        + le_bytes8(value) + seq![script.len() as u8] + script + le_bytes(0)
}

/// A sweep: all that an output pays, less the fee, to the market maker.
pub open spec fn sweep_of(
    market_maker: Seq<u8>,
    spent: SpentOutputView,
    weight: u64,
    fee_rate: u64,
) -> Seq<u8> {
    sweep_encoding(
        spent.txid,
        spent.vout,
        spent.sequence,
        (spent.value - sweep_fee(weight, fee_rate)) as u64,
        p2tr_script(market_maker),
    )
}

/// The fee can be counted and leaves something to be swept, or nothing at all.
pub open spec fn fee_is_covered(value: u64, weight: u64, fee_rate: u64) -> bool {
    fee_rate * weight + 999 <= u64::MAX && sweep_fee(weight, fee_rate) <= value
}

/// Append a number's four bytes, the lowest first.
fn append_u32(to: &mut Vec<u8>, n: u32)
    ensures
        final(to)@ == old(to)@ + le_bytes(n),
{
    to.push((n % 256) as u8);
    to.push((n / 256 % 256) as u8);
    to.push((n / 65536 % 256) as u8);
    to.push((n / 16777216) as u8);
    assert(to@ =~= old(to)@ + le_bytes(n));
}

/// Whether the fee can be counted and leaves something to be swept, or nothing at all.
fn is_fee_covered(value: u64, weight: u64, fee_rate: u64) -> (covered: bool)
    ensures
        covered == fee_is_covered(value, weight, fee_rate),
{
    match fee_rate.checked_mul(weight) {
        None => false,
        Some(product) => match product.checked_add(999) {
            None => false,
            Some(sum) => sum / 1000 <= value,
        },
    }
}

/// An unsigned transaction that sweeps an output to a key: all that it pays, less the fee.
pub fn simple_sweep_tx(
    destination_pubkey: &Vec<u8>,
    spent: &SpentOutput,
    weight: u64,
    fee_rate: u64,
) -> (tx: Transaction)
    requires
        destination_pubkey@.len() == 33,
        fee_is_covered(spent.output.value, weight, fee_rate),
    ensures
        tx.raw@ == sweep_of(destination_pubkey@, spent@, weight, fee_rate),
{
    let script = p2tr_script_pubkey(destination_pubkey);
    let fee: u64 = (fee_rate * weight + 999) / 1000;
    let value: u64 = spent.output.value - fee;
    let mut raw: Vec<u8> = Vec::new();
    append_u32(&mut raw, 2);
    raw.push(1);
    append_bytes(&mut raw, &spent.outpoint.txid);
    append_u32(&mut raw, spent.outpoint.vout);
    raw.push(0);
    append_u32(&mut raw, spent.sequence);
    raw.push(1);
    append_u32(&mut raw, (value % 4294967296) as u32);
    append_u32(&mut raw, (value / 4294967296) as u32);
    raw.push(script.len() as u8);
    append_bytes(&mut raw, &script);
    append_u32(&mut raw, 0);
    assert(raw@ =~= sweep_of(destination_pubkey@, spent@, weight, fee_rate));
    Transaction { raw }
}

/// The unsigned transaction that sweeps an output to the market maker. The output is its one input.
pub open spec fn swept(
    market_maker: Seq<u8>,
    spent: Option<SpentOutputView>,
    weight: Option<u64>,
    fee_rate: u64,
) -> Result<Seq<u8>, SettlementError> {
    match (spent, weight) {
        (Some(spent), Some(weight)) => if market_maker.len() != 33 {
            Err(SettlementError::NotBuilt)
        } else if fee_is_covered(spent.value, weight, fee_rate) {
            Ok(sweep_of(market_maker, spent, weight, fee_rate))
        } else {
            Err(SettlementError::FeeNotCovered)
        },
        _ => Err(SettlementError::NotBuilt),
    }
}

/// Sweep an output to the market maker.
fn sweep(
    market_maker: &Vec<u8>,
    spent: Option<SpentOutput>,
    weight: Option<u64>,
    fee_rate: u64,
) -> (made: Result<Transaction, SettlementError>)
    ensures
        match swept(market_maker@, spent_view(spent), weight, fee_rate) {
            Ok(expected) => made matches Ok(made) && made.raw@ == expected,
            Err(error) => made matches Err(told) && told == error,
        },
{
    match (spent, weight) {
        (Some(spent), Some(weight)) => {
            if market_maker.len() != 33 {
                return Err(SettlementError::NotBuilt);
            }
            if !is_fee_covered(spent.output.value, weight, fee_rate) {
                return Err(SettlementError::FeeNotCovered);
            }
            Ok(simple_sweep_tx(market_maker, &spent, weight, fee_rate))
        },
        _ => Err(SettlementError::NotBuilt),
    }
}

/// A transaction's encoding, where there is one, or the error.
pub open spec fn encoding_or(
    raw: Option<Seq<u8>>,
    error: SettlementError,
) -> Result<Seq<u8>, SettlementError> {
    match raw {
        Some(raw) => Ok(raw),
        None => Err(error),
    }
}

/// The transaction is the one expected, or the error is.
pub open spec fn gives(
    tx: Result<Transaction, SettlementError>,
    expected: Result<Seq<u8>, SettlementError>,
) -> bool {
    match expected {
        Ok(raw) => tx matches Ok(tx) && tx.raw@ == raw,
        Err(error) => tx matches Err(told) && told == error,
    }
}

/// A transaction, where there is one, or the error.
fn transaction_or(raw: Option<Vec<u8>>, error: SettlementError) -> (tx: Result<
    Transaction,
    SettlementError,
>)
    ensures
        gives(tx, encoding_or(bytes_view(raw), error)),
{
    match raw {
        Some(raw) => Ok(Transaction { raw }),
        None => Err(error),
    }
}

/// The outcome's transaction that an attestation unlocks, unless it was published already.
pub fn build_outcome_transaction(competition: &Competition) -> (built: Result<
    Option<Transaction>,
    SettlementError,
>)
    ensures
        match outcome_plan(*competition) {
            Err(error) => built matches Err(told) && told == error,
            Ok(OutcomePlan::Published) => built matches Ok(None),
            Ok(OutcomePlan::Build(index)) => match outcome_transaction(
                (competition.signed_contract->0).encoded@,
                index,
                (competition.attestation->0)@,
            ) {
                Some(raw) => built matches Ok(Some(tx)) && tx.raw@ == raw,
                None => built matches Err(error) && error == SettlementError::NotBuilt,
            },
        },
{
    let index: usize = match plan_outcome_transaction(competition) {
        Err(error) => {
            return Err(error);
        },
        Ok(OutcomePlan::Published) => {
            return Ok(None);
        },
        Ok(OutcomePlan::Build(index)) => index,
    };
    match (&competition.signed_contract, &competition.attestation) {
        (Some(contract), Some(attestation)) => match signed_outcome_tx(
            contract.encoded.as_str(),
            index,
            attestation,
        ) {
            Some(raw) => Ok(Some(Transaction { raw })),
            None => Err(SettlementError::NotBuilt),
        },
        _ => Err(SettlementError::NotBuilt),
    }
}

/// The transaction of a contract that expired.
pub fn build_expiry_transaction(contract: &SignedContract) -> (tx: Result<
    Transaction,
    SettlementError,
>)
    ensures
        gives(
            tx,
            encoding_or(
                expiry_transaction(contract.encoded@),
                SettlementError::NoExpiryTransaction,
            ),
        ),
{
    transaction_or(expiry_tx(contract.encoded.as_str()), SettlementError::NoExpiryTransaction)
}

/// The transaction that splits an outcome among its winners, unlocked with a winner's ticket.
pub open spec fn split_of(
    contract: SignedContract,
    outcome: Outcome,
    player_index: usize,
    preimage: Seq<char>,
) -> Result<Seq<u8>, SettlementError> {
    if !is_hex(preimage) || preimage.len() != 64 {
        Err(SettlementError::InvalidTicketPreimage)
    } else {
        encoding_or(
            split_transaction(
                contract.encoded@,
                attested_index(outcome),
                player_index,
                hex_bytes(preimage),
            ),
            SettlementError::NotBuilt,
        )
    }
}

/// The transaction that splits an outcome among its winners, unlocked with a winner's ticket.
pub fn build_split_transaction(
    contract: &SignedContract,
    outcome: Outcome,
    player_index: usize,
    ticket: &Ticket,
) -> (tx: Result<Transaction, SettlementError>)
    ensures
        gives(tx, split_of(*contract, outcome, player_index, ticket.encrypted_preimage@)),
{
    match hex_decode(ticket.encrypted_preimage.as_str()) {
        Some(preimage) => if preimage.len() == 32 {
            transaction_or(
                signed_split_tx(
                    contract.encoded.as_str(),
                    index_of(outcome),
                    player_index,
                    &preimage,
                ),
                SettlementError::NotBuilt,
            )
        } else {
            Err(SettlementError::InvalidTicketPreimage)
        },
        None => Err(SettlementError::InvalidTicketPreimage),
    }
}

/// The key that an entry's player gave up, by the point of it, if both can be read.
pub open spec fn key_pair(entry: UserEntry) -> Option<(Seq<u8>, Seq<u8>)> {
    match entry.ephemeral_privatekey {
        None => None,
        Some(secret) => match (scalar_of_hex(secret@), point_of_hex(entry.ephemeral_pubkey@)) {
            (Some(scalar), Some(point)) => Some((point, scalar)),
            _ => None,
        },
    }
}

/// The keys that the winners gave up, as far as they can be read.
pub open spec fn winner_keys(entries: Seq<UserEntry>, winners: Seq<Winner>) -> Seq<
    (Seq<u8>, Seq<u8>),
>
    decreases winners.len(),
{
    if winners.len() == 0 {
        Seq::empty()
    } else {
        let earlier = winner_keys(entries, winners.drop_last());
        match key_pair(entries[winners.last().entry_index as int]) {
            Some(pair) => earlier.push(pair),
            None => earlier,
        }
    }
}

/// The text of a scalar in JSON: its hexadecimal digits, in quotes.
pub open spec fn scalar_text(scalar: Seq<u8>) -> Seq<char> {
    "\""@ + hex_text(scalar) + "\""@
}

/// The keys that the winners gave up, as an object in JSON: each under its point.
pub open spec fn winner_keys_text(entries: Seq<UserEntry>, winners: Seq<Winner>) -> Seq<char> {
    by_key(
        winner_keys(entries, winners).map_values(
            |pair: (Seq<u8>, Seq<u8>)| (pair.0, scalar_text(pair.1)),
        ),
    )
}

/// The keys that the winners gave up, as far as they can be read, as an object in JSON.
fn read_winner_keys(entries: &Vec<UserEntry>, winners: &Vec<Winner>) -> (text: String)
    requires
        forall|i: int| 0 <= i < winners@.len() ==> (#[trigger] winners@[i]).entry_index < entries@.len(),
    ensures
        text@ == winner_keys_text(entries@, winners@),
{
    let ghost written = |pair: (Seq<u8>, Seq<u8>)| (pair.0, scalar_text(pair.1));
    let mut keys: Vec<(Vec<u8>, String)> = Vec::new();
    let mut i: usize = 0;
    assert(winners@.take(0) =~= Seq::empty());
    assert(sent_view(keys@) =~= winner_keys(entries@, winners@.take(0)).map_values(written));
    while i < winners.len()
        invariant
            i <= winners@.len(),
            written == (|pair: (Seq<u8>, Seq<u8>)| (pair.0, scalar_text(pair.1))),
            forall|j: int|
                0 <= j < winners@.len() ==> (#[trigger] winners@[j]).entry_index < entries@.len(),
            sent_view(keys@) == winner_keys(entries@, winners@.take(i as int)).map_values(written),
        decreases winners@.len() - i,
    {
        assert(winners@.take(i + 1).drop_last() =~= winners@.take(i as int));
        let entry = &entries[winners[i].entry_index];
        let ghost before = keys@;
        let ghost earlier = winner_keys(entries@, winners@.take(i as int));
        if let Some(secret) = &entry.ephemeral_privatekey {
            if let Some(scalar) = scalar_from_hex(secret.as_str()) {
                if let Some(point) = point_from_hex(entry.ephemeral_pubkey.as_str()) {
                    let ghost pair = (point@, scalar@);
                    let mut text = "\"".to_owned();
                    text.append(hex_encode(&scalar).as_str());
                    text.append("\"");
                    keys.push((point, text));
                    assert(sent_view(keys@) =~= sent_view(before).push(written(pair)));
                    assert(earlier.push(pair).map_values(written) =~= earlier.map_values(
                        written,
                    ).push(written(pair)));
                }
            }
        }
        i = i + 1;
    }
    assert(winners@.take(i as int) =~= winners@);
    gather(&keys)
}

/// The transaction that closes a whole outcome to the market maker, with the keys that all winners
/// gave up, signed at the one input that a sweep has.
pub open spec fn close_of(
    contract: SignedContract,
    outcome: Outcome,
    entries: Seq<UserEntry>,
    winners: Seq<Winner>,
    key: Seq<u8>,
    fee_rate: u64,
) -> Result<Seq<u8>, SettlementError> {
    let text = contract.encoded@;
    match swept(
        contract.params.market_maker@,
        outcome_output(text, attested_index(outcome)),
        closing_weight(text, 34),
        fee_rate,
    ) {
        Err(error) => Err(error),
        Ok(unsigned) => encoding_or(
            closed_outcome(
                text,
                attested_index(outcome),
                unsigned,
                0,
                key,
                winner_keys_text(entries, winners),
            ),
            SettlementError::NotSigned,
        ),
    }
}

/// The transaction that closes a whole outcome to the market maker, with the keys that all winners
/// gave up. `key` is the market maker's own.
pub fn build_close_transaction(
    contract: &SignedContract,
    outcome: Outcome,
    entries: &Vec<UserEntry>,
    winners: &Vec<Winner>,
    key: &Vec<u8>,
    fee_rate: u64,
) -> (tx: Result<Transaction, SettlementError>)
    requires
        forall|i: int| 0 <= i < winners@.len() ==> (#[trigger] winners@[i]).entry_index < entries@.len(),
    ensures
        gives(tx, close_of(*contract, outcome, entries@, winners@, key@, fee_rate)),
{
    let text = contract.encoded.as_str();
    let attested: Option<usize> = index_of(outcome);
    let spent = outcome_close_input(text, attested);
    let weight: Option<u64> = close_weight(text, 34);
    match sweep(&contract.params.market_maker, spent, weight, fee_rate) {
        Err(error) => Err(error),
        Ok(unsigned) => {
            let keys = read_winner_keys(entries, winners);
            transaction_or(
                sign_outcome_close(text, attested, &unsigned.raw, 0, key, keys.as_str()),
                SettlementError::NotSigned,
            )
        },
    }
}

/// The transaction that closes a winner's share to the market maker, with the key that the winner
/// gave up, signed at the one input that a sweep has.
pub open spec fn share_close_of(
    contract: SignedContract,
    outcome: Outcome,
    player_index: usize,
    entry: UserEntry,
    key: Seq<u8>,
    fee_rate: u64,
) -> Result<Seq<u8>, SettlementError> {
    let text = contract.encoded@;
    match swept(
        contract.params.market_maker@,
        closed_share(text, attested_index(outcome), player_index),
        closing_weight(text, 34),
        fee_rate,
    ) {
        Err(error) => Err(error),
        Ok(unsigned) => match entry.ephemeral_privatekey {
            None => Err(SettlementError::InvalidWinnerKey),
            Some(secret) => match scalar_of_hex(secret@) {
                None => Err(SettlementError::InvalidWinnerKey),
                Some(winner_key) => encoding_or(
                    closed_split(
                        text,
                        attested_index(outcome),
                        player_index,
                        unsigned,
                        0,
                        key,
                        winner_key,
                    ),
                    SettlementError::NotSigned,
                ),
            },
        },
    }
}

/// The transaction that closes a winner's share to the market maker, with the key that the winner
/// gave up. `key` is the market maker's own.
pub fn build_share_close_transaction(
    contract: &SignedContract,
    outcome: Outcome,
    player_index: usize,
    entry: &UserEntry,
    key: &Vec<u8>,
    fee_rate: u64,
) -> (tx: Result<Transaction, SettlementError>)
    ensures
        gives(tx, share_close_of(*contract, outcome, player_index, *entry, key@, fee_rate)),
{
    let text = contract.encoded.as_str();
    let attested: Option<usize> = index_of(outcome);
    let spent = split_close_input(text, attested, player_index);
    let weight: Option<u64> = close_weight(text, 34);
    let unsigned = match sweep(&contract.params.market_maker, spent, weight, fee_rate) {
        Ok(swept) => swept,
        Err(error) => {
            return Err(error);
        },
    };
    let secret = match &entry.ephemeral_privatekey {
        Some(secret) => secret,
        None => {
            return Err(SettlementError::InvalidWinnerKey);
        },
    };
    match scalar_from_hex(secret.as_str()) {
        Some(winner_key) => {
            transaction_or(
                sign_split_close(
                    text,
                    attested,
                    player_index,
                    &unsigned.raw,
                    0,
                    key,
                    &winner_key,
                ),
                SettlementError::NotSigned,
            )
        },
        None => Err(SettlementError::InvalidWinnerKey),
    }
}

/// The transaction that reclaims a winner's share to the market maker, signed at the one input that
/// a sweep has.
pub open spec fn share_reclaim_of(
    contract: SignedContract,
    outcome: Outcome,
    player_index: usize,
    key: Seq<u8>,
    fee_rate: u64,
) -> Result<Seq<u8>, SettlementError> {
    let text = contract.encoded@;
    match swept(
        contract.params.market_maker@,
        reclaimed_share(text, attested_index(outcome), player_index),
        reclaiming_weight(text, 34),
        fee_rate,
    ) {
        Err(error) => Err(error),
        Ok(unsigned) => encoding_or(
            reclaimed_split(
                text,
                attested_index(outcome),
                player_index,
                unsigned,
                0,
                key,
            ),
            SettlementError::NotSigned,
        ),
    }
}

/// The transaction that reclaims a winner's share to the market maker. `key` is the market maker's
/// own.
pub fn build_share_reclaim_transaction(
    contract: &SignedContract,
    outcome: Outcome,
    player_index: usize,
    key: &Vec<u8>,
    fee_rate: u64,
) -> (tx: Result<Transaction, SettlementError>)
    ensures
        gives(tx, share_reclaim_of(*contract, outcome, player_index, key@, fee_rate)),
{
    let text = contract.encoded.as_str();
    let attested: Option<usize> = index_of(outcome);
    let spent = split_reclaim_input(text, attested, player_index);
    let weight: Option<u64> = reclaim_weight(text, 34);
    match sweep(&contract.params.market_maker, spent, weight, fee_rate) {
        Err(error) => Err(error),
        Ok(unsigned) => {
            transaction_or(
                sign_split_reclaim(
                    text,
                    attested,
                    player_index,
                    &unsigned.raw,
                    0,
                    key,
                ),
                SettlementError::NotSigned,
            )
        },
    }
}

/// A sweep keeps what is swept together: what it pays and its fee are what the output pays, and a
/// higher rate never pays the market maker more.
pub proof fn sweeps_lose_only_the_fee(value: u64, weight: u64, fee_rate: u64, higher_rate: u64)
    requires
        fee_is_covered(value, weight, fee_rate),
        fee_rate <= higher_rate,
    ensures
        0 <= value - sweep_fee(weight, fee_rate) <= value,
        sweep_fee(weight, fee_rate) * 1000 >= fee_rate * weight,
        sweep_fee(weight, fee_rate) * 1000 < fee_rate * weight + 1000,
        sweep_fee(weight, fee_rate) <= sweep_fee(weight, higher_rate),
{
    assert(fee_rate * weight <= higher_rate * weight) by (nonlinear_arith)
        requires
            fee_rate <= higher_rate,
    ;
    assert(fee_rate * weight >= 0) by (nonlinear_arith);
}

} // verus!
