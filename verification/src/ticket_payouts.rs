//! A winner's request to be paid for their entry key and payout preimage.

use crate::competition::{Competition, Uuid};
use crate::contract::{ContractParameters, Outcome, Player, SignedContract};
use crate::encoding::{
    hex_bytes, hex_decode, hex_encode, hex_text, is_hex, point_from_hex, point_of_hex, public_point,
    scalar_of_hex, sha256, sha256_digest,
};
use crate::entering::{entry_with_id, find_entry};
use crate::entries::UserEntry;
use crate::payouts::same_bytes;
use crate::sellback::{
    bolt11, key_check, read_bolt11, verify_entry_key, weighed_player, PayoutRejection,
};
use crate::settlement::{current_outcome, get_current_outcome, SettlementError};
use vstd::prelude::*;

verus! {

broadcast use vstd::std_specs::btree::group_btree_axioms;

/// What a winner sends to be paid: their ticket, the invoice, and the two secrets that they sell.
#[derive(Debug)]
pub struct PayoutInfo {
    pub ticket_id: Uuid,
    pub payout_preimage: String,
    pub ephemeral_private_key: String,
    pub ln_invoice: String,
}

/// Why a winner's request is refused.
#[derive(Clone, Copy, PartialEq, Eq, Structural, Debug)]
pub enum PayoutRequestError {
    InvalidInvoice,
    NotAttested,
    /// The pot is already being paid out on-chain.
    PaidOnChain,
    EntryNotFound(Uuid),
    /// The ticket is not the entry's.
    WrongTicket,
    TicketNotFound,
    AlreadyPaid(Uuid),
    /// How the competition was decided is not known.
    NoOutcome(SettlementError),
    NotSigned,
    /// The contract pays nothing for the outcome.
    NoPayout,
    /// The entry's key is no point.
    InvalidEntryKey,
    NotAWinner,
    InvalidPrivateKey,
    WrongPrivateKey,
    InvalidPreimage,
    WrongPreimage,
    /// The invoice is for another amount than is owed.
    AmountMismatch { invoice: u64, expected: u64 },
    /// A payout of the entry is under way.
    InProgress,
}

/// What a request has to fulfil before the entry is looked at.
pub open spec fn request_fault(competition: Competition, info: PayoutInfo) -> Option<
    PayoutRequestError,
> {
    if info.ln_invoice@.len() == 0 {
        Some(PayoutRequestError::InvalidInvoice)
    } else if competition.attestation is None {
        Some(PayoutRequestError::NotAttested)
    } else if competition.delta_broadcasted_at is Some || competition.expiry_broadcasted_at is Some
        || competition.completed_at is Some {
        Some(PayoutRequestError::PaidOnChain)
    } else {
        None
    }
}

/// The weight with which an entry's key wins, or why it wins nothing.
pub open spec fn winning_weight(competition: Competition, entry: UserEntry) -> Result<
    (u64, Seq<u8>),
    PayoutRequestError,
> {
    match current_outcome(competition) {
        Err(error) => Err(PayoutRequestError::NoOutcome(error)),
        Ok(outcome) => match competition.signed_contract {
            None => Err(PayoutRequestError::NotSigned),
            Some(contract) => match contract.params.outcome_payouts.weights(outcome) {
                None => Err(PayoutRequestError::NoPayout),
                Some(weights) => match point_of_hex(entry.ephemeral_pubkey@) {
                    None => Err(PayoutRequestError::InvalidEntryKey),
                    Some(point) => match weighed_player(
                        contract.params.players@,
                        weights,
                        point,
                        0,
                    ) {
                        None => Err(PayoutRequestError::NotAWinner),
                        Some(player) => Ok((weights[player], point)),
                    },
                },
            },
        },
    }
}

/// Why the secrets that a winner sells are not those of their entry, if so.
pub open spec fn secrets_fault(info: PayoutInfo, point: Seq<u8>, payout_hash: Seq<char>) -> Option<
    PayoutRequestError,
> {
    let preimage = info.payout_preimage@;
    match key_check(info.ephemeral_private_key@, point) {
        Err(PayoutRejection::InvalidKey) => Some(PayoutRequestError::InvalidPrivateKey),
        Err(_) => Some(PayoutRequestError::WrongPrivateKey),
        Ok(_) => if !is_hex(preimage) || preimage.len() != 64 {
            Some(PayoutRequestError::InvalidPreimage)
        } else if hex_text(sha256_digest(hex_bytes(preimage))) != payout_hash {
            Some(PayoutRequestError::WrongPreimage)
        } else {
            None
        },
    }
}

/// Why an invoice does not ask for what is owed, if so. One that names no amount is good for any.
pub open spec fn invoice_fault(invoice: Seq<char>, owed: int) -> Option<PayoutRequestError> {
    match bolt11(invoice) {
        Err(_) => Some(PayoutRequestError::InvalidInvoice),
        Ok((amount_msat, _, _)) => match amount_msat {
            None => None,
            Some(msat) => if msat / 1000 == owed {
                None
            } else {
                Some(
                    PayoutRequestError::AmountMismatch {
                        invoice: msat / 1000,
                        expected: owed as u64,
                    },
                )
            },
        },
    }
}

/// What a winner is paid, in satoshis, or why their request is refused.
pub open spec fn payout_of(
    competition: Competition,
    entries: Seq<UserEntry>,
    entry_id: Uuid,
    has_ticket: bool,
    info: PayoutInfo,
) -> Result<int, PayoutRequestError> {
    if request_fault(competition, info) is Some {
        Err(request_fault(competition, info)->0)
    } else {
        match entry_with_id(entries, entry_id, 0) {
            None => Err(PayoutRequestError::EntryNotFound(entry_id)),
            Some(at) => {
                let entry = entries[at];
                if entry.ticket_id != info.ticket_id {
                    Err(PayoutRequestError::WrongTicket)
                } else if !has_ticket {
                    Err(PayoutRequestError::TicketNotFound)
                } else if entry.paid_out_at is Some {
                    Err(PayoutRequestError::AlreadyPaid(entry.id))
                } else {
                    match winning_weight(competition, entry) {
                        Err(error) => Err(error),
                        Ok((weight, point)) => {
                            let owed = competition.signed_contract->0.params.funding_value * weight
                                / 100;
                            match secrets_fault(info, point, entry.payout_hash@) {
                                Some(error) => Err(error),
                                None => match invoice_fault(info.ln_invoice@, owed) {
                                    Some(error) => Err(error),
                                    None => Ok(owed),
                                },
                            }
                        },
                    }
                }
            },
        }
    }
}

/// Every share of the pot, before it is divided by a hundred, can be counted.
pub open spec fn shares_can_be_counted(params: ContractParameters) -> bool {
    forall|outcome: Outcome, player: usize|
        #![trigger params.outcome_payouts.weights(outcome)->0[player]]
        params.outcome_payouts.weights(outcome) is Some && params.outcome_payouts.weights(
            outcome,
        )->0.contains_key(player) ==> params.funding_value * params.outcome_payouts.weights(
            outcome,
        )->0[player] <= u64::MAX
}

/// The weight with which an entry's key wins, and the key's point.
fn find_winning_weight(competition: &Competition, entry: &UserEntry) -> (found: Result<
    (u64, Vec<u8>),
    PayoutRequestError,
>)
    ensures
        match winning_weight(*competition, *entry) {
            Err(error) => found matches Err(told) && told == error,
            Ok((weight, point)) => found matches Ok(found) && found.0 == weight && found.1@ == point,
        },
        found is Ok && shares_can_be_counted(competition.signed_contract->0.params)
            ==> competition.signed_contract->0.params.funding_value * found->Ok_0.0 <= u64::MAX,
{
    let outcome = match get_current_outcome(competition) {
        Ok(outcome) => outcome,
        Err(error) => {
            return Err(PayoutRequestError::NoOutcome(error));
        },
    };
    let contract = match &competition.signed_contract {
        Some(contract) => contract,
        None => {
            return Err(PayoutRequestError::NotSigned);
        },
    };
    let weights = match contract.params.outcome_payouts.get(outcome) {
        Some(weights) => weights,
        None => {
            return Err(PayoutRequestError::NoPayout);
        },
    };
    let point = match point_from_hex(entry.ephemeral_pubkey.as_str()) {
        Some(point) => point,
        None => {
            return Err(PayoutRequestError::InvalidEntryKey);
        },
    };
    let players = &contract.params.players;
    let mut i: usize = 0;
    while i < players.len()
        invariant
            i <= players@.len(),
            current_outcome(*competition) == Ok::<Outcome, SettlementError>(outcome),
            competition.signed_contract == Some(*contract),
            *players == contract.params.players,
            contract.params.outcome_payouts.weights(outcome) == Some(weights@),
            point_of_hex(entry.ephemeral_pubkey@) == Some(point@),
            weighed_player(players@, weights@, point@, 0) == weighed_player(
                players@,
                weights@,
                point@,
                i as int,
            ),
        decreases players@.len() - i,
    {
        if let Some(weight) = weights.get(&i) {
            if same_bytes(&players[i].pubkey, &point) {
                let weight: u64 = *weight;
                assert(contract.params.outcome_payouts.weights(outcome)->0[i] == weight);
                return Ok((weight, point));
            }
        }
        i = i + 1;
    }
    Err(PayoutRequestError::NotAWinner)
}

/// Check the secrets that a winner sells.
fn check_secrets(info: &PayoutInfo, point: &Vec<u8>, payout_hash: &String) -> (checked: Result<
    (),
    PayoutRequestError,
>)
    ensures
        match secrets_fault(*info, point@, payout_hash@) {
            Some(error) => checked matches Err(told) && told == error,
            None => checked is Ok,
        },
{
    match verify_entry_key(info.ephemeral_private_key.as_str(), point) {
        Ok(_) => {},
        Err(PayoutRejection::InvalidKey) => {
            return Err(PayoutRequestError::InvalidPrivateKey);
        },
        Err(_) => {
            return Err(PayoutRequestError::WrongPrivateKey);
        },
    }
    let preimage = match hex_decode(info.payout_preimage.as_str()) {
        Some(preimage) => preimage,
        None => {
            return Err(PayoutRequestError::InvalidPreimage);
        },
    };
    if preimage.len() != 32 {
        return Err(PayoutRequestError::InvalidPreimage);
    }
    let derived = hex_encode(&sha256(&preimage));
    if derived != *payout_hash {
        return Err(PayoutRequestError::WrongPreimage);
    }
    Ok(())
}

/// Check that an invoice asks for what is owed.
fn check_invoice(invoice: &String, owed: u64) -> (checked: Result<(), PayoutRequestError>)
    ensures
        match invoice_fault(invoice@, owed as int) {
            Some(error) => checked matches Err(told) && told == error,
            None => checked is Ok,
        },
{
    match read_bolt11(invoice.as_str()) {
        Err(_) => Err(PayoutRequestError::InvalidInvoice),
        Ok(read) => match read.amount_msat {
            None => Ok(()),
            Some(msat) => if msat / 1000 == owed {
                Ok(())
            } else {
                Err(PayoutRequestError::AmountMismatch { invoice: msat / 1000, expected: owed })
            },
        },
    }
}

/// What a winner is paid for their request, in satoshis, or why it is refused. `entries` are the
/// player's in the competition, and `has_ticket` is whether the entry's ticket is among the
/// competition's. What is returned is still to be recorded as a pending payout, of which an entry
/// has one at a time.
pub fn submit_ticket_payout(
    competition: &Competition,
    entries: &Vec<UserEntry>,
    entry_id: Uuid,
    has_ticket: bool,
    payout_info: &PayoutInfo,
) -> (owed: Result<u64, PayoutRequestError>)
    requires
        competition.signed_contract matches Some(contract) ==> shares_can_be_counted(
            contract.params,
        ),
    ensures
        match payout_of(*competition, entries@, entry_id, has_ticket, *payout_info) {
            Ok(expected) => owed matches Ok(owed) && owed == expected,
            Err(error) => owed matches Err(told) && told == error,
        },
{
    if payout_info.ln_invoice.as_str().unicode_len() == 0 {
        return Err(PayoutRequestError::InvalidInvoice);
    }
    if competition.attestation.is_none() {
        return Err(PayoutRequestError::NotAttested);
    }
    if competition.delta_broadcasted_at.is_some() || competition.is_expiry_broadcasted()
        || competition.is_completed() {
        return Err(PayoutRequestError::PaidOnChain);
    }
    let entry = match find_entry(entries, entry_id) {
        Some(at) => &entries[at],
        None => {
            return Err(PayoutRequestError::EntryNotFound(entry_id));
        },
    };
    if entry.ticket_id != payout_info.ticket_id {
        return Err(PayoutRequestError::WrongTicket);
    }
    if !has_ticket {
        return Err(PayoutRequestError::TicketNotFound);
    }
    if entry.paid_out_at.is_some() {
        return Err(PayoutRequestError::AlreadyPaid(entry.id));
    }
    let (weight, point) = match find_winning_weight(competition, entry) {
        Ok(found) => found,
        Err(error) => {
            return Err(error);
        },
    };
    match check_secrets(payout_info, &point, &entry.payout_hash) {
        Ok(_) => {},
        Err(error) => {
            return Err(error);
        },
    }
    let funding_value: u64 = match &competition.signed_contract {
        Some(contract) => contract.params.funding_value,
        None => 0,
    };
    assert(0 <= funding_value * weight) by (nonlinear_arith)
        requires
            0 <= funding_value,
            0 <= weight,
    ;
    let owed: u64 = funding_value * weight / 100;
    match check_invoice(&payout_info.ln_invoice, owed) {
        Ok(_) => Ok(owed),
        Err(error) => Err(error),
    }
}

/// The pending payout of a request was recorded; `recorded` is false where one of the entry was
/// under way.
pub fn payout_was_recorded(recorded: bool) -> (submitted: Result<(), PayoutRequestError>)
    ensures
        submitted == if recorded {
            Ok::<(), PayoutRequestError>(())
        } else {
            Err::<(), PayoutRequestError>(PayoutRequestError::InProgress)
        },
{
    if recorded {
        Ok(())
    } else {
        Err(PayoutRequestError::InProgress)
    }
}

/// A winner is paid only before the pot is paid out on-chain, only once for an entry, and only for
/// the secrets that the entry was made with.
pub proof fn payouts_are_bought_once_and_for_the_secrets(
    competition: Competition,
    entries: Seq<UserEntry>,
    entry_id: Uuid,
    has_ticket: bool,
    info: PayoutInfo,
)
    requires
        payout_of(competition, entries, entry_id, has_ticket, info) is Ok,
    ensures
        competition.delta_broadcasted_at is None,
        competition.expiry_broadcasted_at is None,
        competition.completed_at is None,
        entry_with_id(entries, entry_id, 0) matches Some(at) && entries[at].paid_out_at is None
            && key_check(
            info.ephemeral_private_key@,
            point_of_hex(entries[at].ephemeral_pubkey@)->0,
        ) is Ok && hex_text(sha256_digest(hex_bytes(info.payout_preimage@)))
            == entries[at].payout_hash@,
{
}

/// The lowest player who has a key and a weight has both, and no lower one has.
pub(crate) proof fn weighed_is_first(
    players: Seq<Player>,
    weights: Map<usize, u64>,
    key: Seq<u8>,
    from: int,
)
    requires
        0 <= from <= players.len() <= usize::MAX,
        forall|q: usize|
            q < from && #[trigger] weights.contains_key(q) ==> players[q as int].pubkey@ != key,
    ensures
        match weighed_player(players, weights, key, from) {
            Some(p) => wins_with(players, weights, key, p),
            None => forall|q: usize|
                q < players.len() && #[trigger] weights.contains_key(q) ==> players[q as int].pubkey@
                    != key,
        },
    decreases players.len() - from,
{
    if from < players.len() && !(weights.contains_key(from as usize) && players[from].pubkey@
        == key) {
        weighed_is_first(players, weights, key, from + 1);
    }
}

/// The player has the key and is paid, and no lower player with the key is.
pub open spec fn wins_with(
    players: Seq<Player>,
    weights: Map<usize, u64>,
    key: Seq<u8>,
    player: usize,
) -> bool {
    &&& player < players.len()
    &&& weights.contains_key(player)
    &&& players[player as int].pubkey@ == key
    &&& forall|q: usize|
        q < player && #[trigger] weights.contains_key(q) ==> players[q as int].pubkey@ != key
}

/// An entry is found under its id where it is the first with it.
proof fn found_with_id(entries: Seq<UserEntry>, id: Uuid, from: int, at: int)
    requires
        0 <= from <= at < entries.len(),
        entries[at].id == id,
        forall|other: int| from <= other < at ==> (#[trigger] entries[other]).id != id,
    ensures
        entry_with_id(entries, id, from) == Some(at),
    decreases at - from,
{
    if from < at {
        assert(entries[from].id != id);
        found_with_id(entries, id, from + 1, at);
    }
}

/// What a winner is paid on their request is exactly their player's weight of the funding value, in
/// hundredths, and the invoice asks for exactly that in whole satoshis, or for no amount. A request
/// is granted exactly if it brings an invoice that can be read, before the pot is paid out on-chain;
/// if its entry is the player's, was made with the ticket that it names, and was not paid before;
/// and if the secrets are those of the entry.
pub proof fn winners_are_paid_exactly_what_is_owed(
    competition: Competition,
    entries: Seq<UserEntry>,
    at: int,
    has_ticket: bool,
    info: PayoutInfo,
    contract: SignedContract,
    outcome: Outcome,
    player: usize,
)
    requires
        0 <= at < entries.len(),
        forall|other: int| 0 <= other < at ==> (#[trigger] entries[other]).id != entries[at].id,
        competition.signed_contract == Some(contract),
        contract.params.players@.len() <= usize::MAX,
        current_outcome(competition) == Ok::<Outcome, SettlementError>(outcome),
        contract.params.outcome_payouts.weights(outcome) is Some,
        point_of_hex(entries[at].ephemeral_pubkey@) is Some,
        wins_with(
            contract.params.players@,
            contract.params.outcome_payouts.weights(outcome)->0,
            point_of_hex(entries[at].ephemeral_pubkey@)->0,
            player,
        ),
    ensures
        ({
            let entry = entries[at];
            let weights = contract.params.outcome_payouts.weights(outcome)->0;
            let owed = contract.params.funding_value * weights[player] / 100;
            let asked = bolt11(info.ln_invoice@);
            let paid = payout_of(competition, entries, entry.id, has_ticket, info);
            let fair = {
                &&& info.ln_invoice@.len() > 0
                &&& competition.attestation is Some
                &&& competition.delta_broadcasted_at is None
                &&& competition.expiry_broadcasted_at is None
                &&& competition.completed_at is None
                &&& entry.ticket_id == info.ticket_id
                &&& has_ticket
                &&& entry.paid_out_at is None
                &&& scalar_of_hex(info.ephemeral_private_key@) is Some
                &&& public_point(scalar_of_hex(info.ephemeral_private_key@)->0) == point_of_hex(
                    entry.ephemeral_pubkey@,
                )
                &&& is_hex(info.payout_preimage@)
                &&& info.payout_preimage@.len() == 64
                &&& hex_text(sha256_digest(hex_bytes(info.payout_preimage@)))
                    == entry.payout_hash@
            };
            &&& paid matches Ok(sats) ==> fair && asked is Ok && sats == owed && ((asked->Ok_0).0
                matches Some(msat) ==> msat / 1000 == sats)
            &&& fair && asked is Err ==> paid == Err::<int, PayoutRequestError>(
                PayoutRequestError::InvalidInvoice,
            )
            &&& fair && asked is Ok && (asked->Ok_0).0 is None ==> paid == Ok::<
                int,
                PayoutRequestError,
            >(owed)
            &&& fair && asked is Ok && (asked->Ok_0).0 is Some && (asked->Ok_0).0->0 / 1000 == owed
                ==> paid == Ok::<int, PayoutRequestError>(owed)
            &&& fair && asked is Ok && (asked->Ok_0).0 is Some && (asked->Ok_0).0->0 / 1000 != owed
                ==> (paid matches Err(PayoutRequestError::AmountMismatch { invoice, expected })
                && invoice == (asked->Ok_0).0->0 / 1000 && (owed <= u64::MAX ==> expected == owed))
        }),
{
    let entry = entries[at];
    let weights = contract.params.outcome_payouts.weights(outcome)->0;
    let point = point_of_hex(entry.ephemeral_pubkey@)->0;
    let players = contract.params.players@;
    found_with_id(entries, entry.id, 0, at);
    weighed_is_first(players, weights, point, 0);
    match weighed_player(players, weights, point, 0) {
        Some(found) => {
            if found < player {
                assert(weights.contains_key(found));
            }
            if player < found {
                assert(weights.contains_key(player));
            }
        },
        None => {
            assert(weights.contains_key(player));
        },
    }
}

/// The competition's outcome pays the player, who has the entry's key, this much of the pot.
pub open spec fn is_owed(
    competition: Competition,
    entry: UserEntry,
    player: usize,
    owed: int,
) -> bool {
    match (competition.signed_contract, current_outcome(competition)) {
        (Some(contract), Ok(outcome)) => match contract.params.outcome_payouts.weights(outcome) {
            Some(weights) => {
                &&& weights.contains_key(player)
                &&& player < contract.params.players@.len()
                &&& point_of_hex(entry.ephemeral_pubkey@) == Some(
                    contract.params.players@[player as int].pubkey@,
                )
                &&& owed == contract.params.funding_value * weights[player] / 100
            },
            None => false,
        },
        _ => false,
    }
}

/// Whoever the outcome pays nothing is paid nothing: a request is granted only for an entry whose key
/// a player has whom the outcome pays, and no invoice is paid that asks for another amount than is
/// owed.
pub proof fn only_winners_are_paid(
    competition: Competition,
    entries: Seq<UserEntry>,
    entry_id: Uuid,
    has_ticket: bool,
    info: PayoutInfo,
    owed: int,
)
    requires
        entries.len() <= usize::MAX,
        competition.signed_contract matches Some(contract) ==> contract.params.players@.len()
            <= usize::MAX,
        payout_of(competition, entries, entry_id, has_ticket, info) == Ok::<
            int,
            PayoutRequestError,
        >(owed),
    ensures
        exists|at: int, player: usize|
            0 <= at < entries.len() && entries[at].id == entry_id && #[trigger] is_owed(
                competition,
                entries[at],
                player,
                owed,
            ),
        bolt11(info.ln_invoice@) is Ok,
        (bolt11(info.ln_invoice@)->Ok_0).0 matches Some(msat) ==> msat / 1000 == owed,
{
    let params = (competition.signed_contract->0).params;
    let outcome = current_outcome(competition)->Ok_0;
    let weights = params.outcome_payouts.weights(outcome)->0;
    let at = entry_with_id(entries, entry_id, 0)->0;
    id_is_found(entries, entry_id, 0);
    let point = point_of_hex(entries[at].ephemeral_pubkey@)->0;
    weighed_is_first(params.players@, weights, point, 0);
    let player = weighed_player(params.players@, weights, point, 0)->0;
    assert(is_owed(competition, entries[at], player, owed));
}

/// Where an entry is found, it has the id.
proof fn id_is_found(entries: Seq<UserEntry>, id: Uuid, from: int)
    requires
        0 <= from <= entries.len(),
    ensures
        entry_with_id(entries, id, from) matches Some(at) ==> from <= at < entries.len()
            && entries[at].id == id && forall|other: int|
            from <= other < at ==> (#[trigger] entries[other]).id != id,
        entry_with_id(entries, id, from) is None ==> forall|other: int|
            from <= other < entries.len() ==> (#[trigger] entries[other]).id != id,
    decreases entries.len() - from,
{
    if from < entries.len() && entries[from].id != id {
        id_is_found(entries, id, from + 1);
    }
}

} // verus!
