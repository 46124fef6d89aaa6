//! Checks for the payout sellback.
//!
//! A winner sells their payout preimage and their entry key back to the market maker for a
//! Lightning payment. These are the checks that make that exchange safe for the coordinator.

use crate::contract::{ContractParameters, Outcome, Player};
use crate::encoding::{
    base_point_mul, hex_bytes, hex_decode, hex_round_trips, is_hex, normal_hex32, normalize_hex32,
    public_point, scalar_from_hex, scalar_of_hex, sha256, sha256_digest, trim, trimmed,
};
use crate::payouts::same_bytes;
use std::str::FromStr;
use vstd::prelude::*;
use vstd::utf8::encode_utf8;

verus! {

broadcast use vstd::std_specs::btree::group_btree_axioms;

/// Upper bound on a submitted BOLT11 invoice, in bytes. Route hints make real invoices long, but
/// nothing legitimate comes close to this.
pub const MAX_INVOICE_LEN: usize = 4096;

/// Why a payout is refused.
#[derive(Debug, PartialEq, Eq)]
pub enum PayoutRejection {
    /// The invoice is longer than any legitimate one.
    InvoiceTooLong,
    /// The invoice cannot be read, for the reason given.
    InvalidInvoice(String),
    /// The entry wins nothing.
    NotAWinner,
    /// The payout preimage cannot be read.
    InvalidPreimage,
    /// The payout preimage does not open the entry's payout hash.
    PreimageMismatch,
    /// The entry key cannot be read.
    InvalidKey,
    /// The entry key is not the entry's.
    KeyMismatch,
}

/// What is read of a Lightning invoice: its amount, if it names one, the hash that its payment
/// reveals the preimage of, and when it expires, in UNIX seconds.
#[derive(Debug)]
pub struct Invoice {
    pub amount_msat: Option<u64>,
    pub payment_hash: Vec<u8>,
    pub expires_at: Option<u64>,
}

impl Invoice {
    /// The amount that the invoice names, in thousandths of a satoshi.
    pub fn amount_milli_satoshis(&self) -> (amount: Option<u64>)
        ensures
            amount == self.amount_msat,
    {
        self.amount_msat
    }

    /// The invoice will have expired at the given UNIX time. One whose expiry cannot be counted
    /// never does.
    pub fn would_expire(&self, at: u64) -> (expired: bool)
        ensures
            expired == match self.expires_at {
                Some(expires_at) => expires_at < at,
                None => false,
            },
    {
        match self.expires_at {
            Some(expires_at) => expires_at < at,
            None => false,
        }
    }
}

/// The lowest player from the `from`th on who has the key and a weight.
pub open spec fn weighed_player(
    players: Seq<Player>,
    weights: Map<usize, u64>,
    key: Seq<u8>,
    from: int,
) -> Option<usize>
    decreases players.len() - from,
{
    if from < 0 || from >= players.len() {
        None
    } else if weights.contains_key(from as usize) && players[from].pubkey@ == key {
        Some(from as usize)
    } else {
        weighed_player(players, weights, key, from + 1)
    }
}

/// A share of the funding value, by its weight out of a hundred. Where the product is too large to
/// count, it stands at the largest amount.
pub open spec fn weighed_share(funding_value: nat, weight: nat) -> nat {
    if funding_value * weight > u64::MAX {
        u64::MAX as nat / 100
    } else {
        funding_value * weight / 100
    }
}

/// What the market maker owes a winner, if anything.
pub open spec fn owed(params: ContractParameters, outcome: Outcome, key: Seq<u8>) -> Option<nat> {
    match params.outcome_payouts.weights(outcome) {
        None => None,
        Some(weights) => match weighed_player(params.players@, weights, key, 0) {
            None => None,
            Some(player) => if weights[player] > 0 {
                Some(weighed_share(params.funding_value as nat, weights[player] as nat))
            } else {
                None
            },
        },
    }
}

/// What the market maker owes a winner, in satoshis: their weight's share of the funding value.
pub fn winner_payout_sats(
    params: &ContractParameters,
    outcome: &Outcome,
    entry_pubkey: &Vec<u8>,
) -> (sats: Result<u64, PayoutRejection>)
    ensures
        match owed(*params, *outcome, entry_pubkey@) {
            Some(expected) => sats matches Ok(sats) && sats == expected,
            None => sats matches Err(rejection) && rejection is NotAWinner,
        },
{
    let weights = match params.outcome_payouts.get(*outcome) {
        Some(weights) => weights,
        None => {
            return Err(PayoutRejection::NotAWinner);
        },
    };
    let mut i: usize = 0;
    while i < params.players.len()
        invariant
            i <= params.players@.len(),
            params.outcome_payouts.weights(*outcome) == Some(weights@),
            weighed_player(params.players@, weights@, entry_pubkey@, 0) == weighed_player(
                params.players@,
                weights@,
                entry_pubkey@,
                i as int,
            ),
        decreases params.players@.len() - i,
    {
        if let Some(weight) = weights.get(&i) {
            if same_bytes(&params.players[i].pubkey, entry_pubkey) {
                if *weight == 0 {
                    return Err(PayoutRejection::NotAWinner);
                }
                return Ok(share(params.funding_value, *weight));
            }
        }
        i = i + 1;
    }
    Err(PayoutRejection::NotAWinner)
}

/// A share of the funding value, by its weight out of a hundred.
pub fn share(funding_value: u64, weight: u64) -> (sats: u64)
    ensures
        sats == weighed_share(funding_value as nat, weight as nat),
{
    match funding_value.checked_mul(weight) {
        Some(product) => product / 100,
        None => u64::MAX / 100,
    }
}

/// What is read of a BOLT11 invoice, or why it cannot be read.
pub uninterp spec fn bolt11(text: Seq<char>) -> Result<
    (Option<u64>, Seq<u8>, Option<u64>),
    Seq<char>,
>;

/// What is read of an invoice.
pub open spec fn invoice_view(read: Result<Invoice, String>) -> Result<
    (Option<u64>, Seq<u8>, Option<u64>),
    Seq<char>,
> {
    match read {
        Ok(invoice) => Ok((invoice.amount_msat, invoice.payment_hash@, invoice.expires_at)),
        Err(reason) => Err(reason@),
    }
}

/// Read a BOLT11 invoice, from `from_str` of `lightning_invoice::Bolt11Invoice`, whose amount,
/// payment hash and expiry are taken over. The result is named; a payment hash has 32 bytes.
#[verifier::external_body]
pub(crate) fn read_bolt11(text: &str) -> (read: Result<Invoice, String>)
    ensures
        invoice_view(read) == bolt11(text@),
        read matches Ok(invoice) ==> invoice.payment_hash@.len() == 32,
{
    let invoice = lightning_invoice::Bolt11Invoice::from_str(text).map_err(|e| e.to_string())?;
    let hash: &[u8] = invoice.payment_hash().as_ref();
    Ok(Invoice {
        amount_msat: invoice.amount_milli_satoshis(),
        payment_hash: hash.to_vec(),
        expires_at: invoice.expires_at().map(|at| at.as_secs()),
    })
}

/// Read a submitted invoice. White space at its ends does not count.
pub fn parse_invoice(invoice: &str) -> (parsed: Result<Invoice, PayoutRejection>)
    ensures
        encode_utf8(invoice@).len() as usize > MAX_INVOICE_LEN ==> parsed == Err::<
            Invoice,
            PayoutRejection,
        >(PayoutRejection::InvoiceTooLong),
        encode_utf8(invoice@).len() as usize <= MAX_INVOICE_LEN ==> match bolt11(
            trimmed(invoice@),
        ) {
            Ok(expected) => parsed matches Ok(read) && (
                read.amount_msat,
                read.payment_hash@,
                read.expires_at,
            ) == expected,
            Err(reason) => parsed matches Err(PayoutRejection::InvalidInvoice(told)) && told@
                == reason,
        },
        parsed matches Ok(read) ==> read.payment_hash@.len() == 32,
{
    if invoice.len() > MAX_INVOICE_LEN {
        return Err(PayoutRejection::InvoiceTooLong);
    }
    match read_bolt11(trim(invoice)) {
        Ok(read) => Ok(read),
        Err(reason) => Err(PayoutRejection::InvalidInvoice(reason)),
    }
}

/// The preimage that text stands for, if it opens the payout hash.
pub open spec fn opened(preimage: Seq<char>, payout_hash_hex: Seq<char>) -> Result<
    Seq<u8>,
    PayoutRejection,
> {
    match normal_hex32(trimmed(preimage)) {
        None => Err(PayoutRejection::InvalidPreimage),
        Some(normal) => if is_hex(payout_hash_hex) && payout_hash_hex.len() == 64
            && sha256_digest(hex_bytes(normal)) == hex_bytes(payout_hash_hex) {
            Ok(hex_bytes(normal))
        } else {
            Err(PayoutRejection::PreimageMismatch)
        },
    }
}

/// A payout preimage, accepted only if it opens the entry's payout hash. It may be in hexadecimal
/// or base64, since nodes report preimages both ways.
pub fn verify_payout_preimage(preimage: &str, payout_hash_hex: &str) -> (verified: Result<
    Vec<u8>,
    PayoutRejection,
>)
    ensures
        match opened(preimage@, payout_hash_hex@) {
            Ok(expected) => verified matches Ok(bytes) && bytes@ == expected,
            Err(rejection) => verified matches Err(told) && told == rejection,
        },
{
    let normal = match normalize_hex32(preimage) {
        Some(normal) => normal,
        None => {
            return Err(PayoutRejection::InvalidPreimage);
        },
    };
    proof {
        normal_is_hex(trimmed(preimage@));
    }
    let bytes = match hex_decode(normal.as_str()) {
        Some(bytes) => bytes,
        None => {
            return Err(PayoutRejection::InvalidPreimage);
        },
    };
    let expected = match hex_decode(payout_hash_hex) {
        Some(expected) => expected,
        None => {
            return Err(PayoutRejection::PreimageMismatch);
        },
    };
    if expected.len() != 32 || !same_bytes(&sha256(&bytes), &expected) {
        return Err(PayoutRejection::PreimageMismatch);
    }
    Ok(bytes)
}

/// What is normalised is in hexadecimal.
proof fn normal_is_hex(value: Seq<char>)
    ensures
        normal_hex32(value) matches Some(normal) ==> is_hex(normal),
{
    if is_hex(value) && value.len() == 64 {
        hex_round_trips(hex_bytes(value));
    } else {
        match crate::encoding::base64_bytes(value) {
            Some(bytes) => {
                hex_round_trips(bytes);
            },
            None => match crate::encoding::base64_url_bytes(value) {
                Some(bytes) => {
                    hex_round_trips(bytes);
                },
                None => {},
            },
        }
    }
}

/// Whether a key, given in hexadecimal, opens an entry's public key.
pub open spec fn key_check(key_hex: Seq<char>, entry_pubkey: Seq<u8>) -> Result<
    (),
    PayoutRejection,
> {
    match scalar_of_hex(key_hex) {
        None => Err(PayoutRejection::InvalidKey),
        Some(scalar) => if public_point(scalar) == Some(entry_pubkey) {
            Ok(())
        } else {
            Err(PayoutRejection::KeyMismatch)
        },
    }
}

/// Check that an entry key opens the entry's recorded public key, given by its compressed
/// encoding.
pub fn verify_entry_key(key_hex: &str, entry_pubkey: &Vec<u8>) -> (verified: Result<
    (),
    PayoutRejection,
>)
    ensures
        verified == key_check(key_hex@, entry_pubkey@),
{
    let scalar = match scalar_from_hex(key_hex) {
        Some(scalar) => scalar,
        None => {
            return Err(PayoutRejection::InvalidKey);
        },
    };
    match base_point_mul(&scalar) {
        Some(point) => if same_bytes(&point, entry_pubkey) {
            Ok(())
        } else {
            Err(PayoutRejection::KeyMismatch)
        },
        None => Err(PayoutRejection::KeyMismatch),
    }
}

} // verus!
