//! Building a competition's contract and the transaction that funds it.

use crate::chain::{
    decode_transaction, outputs_view, parts_view, public_key_bytes, public_key_from_str,
    transaction_parts, TxOutput, TxParts,
};
use crate::clock::{is_datetime, unix_timestamp, whole_seconds, Timestamp};
use crate::competition::{Competition, Uuid};
use crate::contract::{
    player_view, players_view, ContractParameters, EventAnnouncement, OutPoint, OutcomePayouts,
    Player, SigMap,
};
use crate::encoding::{
    hash32, hex_bytes, hex_decode, is_hex, parse_hash32, point_from_hex, point_of_hex, sha256,
    sha256_digest,
};
use crate::entering::{entry_with_id, find_entry};
use crate::entries::{RegistrationContext, Ticket, UserEntry};
use crate::lifecycle::Coordinator;
use crate::payouts::same_bytes;
use std::collections::HashMap;
use vstd::prelude::*;

verus! {

broadcast use vstd::std_specs::hash::group_hash_axioms;

/// Why a contract cannot be built.
#[derive(Clone, Copy, PartialEq, Eq, Structural, Debug)]
pub enum ContractError {
    /// The oracle has not announced the event.
    NoAnnouncement,
    /// The entry's key is no point.
    InvalidEntryKey(Uuid),
    /// The hash of the entry's ticket is no hash.
    InvalidTicketHash(Uuid),
    /// The entry's payout hash is no hash.
    InvalidPayoutHash(Uuid),
    /// The ticket has no escrow transaction.
    MissingEscrow(Uuid),
    /// The ticket's escrow transaction cannot be read.
    InvalidEscrow(Uuid),
    /// The escrow transaction has no such output.
    MissingEscrowOutput(Uuid),
    /// The ticket's entry is not among those that are played.
    MissingEntry(Uuid),
    /// The ticket's escrow has no key.
    MissingEscrowKey(Uuid),
    /// The ticket's escrow is locked with another key than the entry's.
    EscrowKeyMismatch(Uuid),
    /// The entry's key is no public key.
    InvalidEscrowKey(Uuid),
    /// The ticket's preimage cannot be read.
    InvalidPreimage(Uuid),
    /// The ticket's preimage is not that of its hash.
    PaymentHashMismatch(Uuid),
    /// The funding transaction does not pay the contract.
    NoFundingOutput,
    /// The partially signed transaction cannot be read.
    InvalidPsbt,
    /// The entry has no sealed key to register.
    MissingSealedKey(Uuid),
    /// The entry has no authentication key to register.
    MissingAuthKey(Uuid),
    /// The entry has no context to register under.
    MissingContext(Uuid),
    /// The contract's terms cannot be written, or no output can fund them.
    InvalidTerms,
    /// The time until which the inputs are reserved cannot be counted.
    DeadlineOverflow,
}

/// Whether a contract still has to be built.
#[derive(Clone, Copy, PartialEq, Eq, Structural, Debug)]
pub enum ContractNeed {
    /// It was built before.
    Nothing,
    Build,
}

/// Whether a contract still has to be built. It needs the oracle's announcement.
pub fn contract_need(competition: &Competition) -> (need: Result<ContractNeed, ContractError>)
    ensures
        need == if competition.event_announcement is None {
            Err::<ContractNeed, ContractError>(ContractError::NoAnnouncement)
        } else if competition.public_nonces is Some {
            Ok::<ContractNeed, ContractError>(ContractNeed::Nothing)
        } else {
            Ok::<ContractNeed, ContractError>(ContractNeed::Build)
        },
{
    if competition.event_announcement.is_none() {
        return Err(ContractError::NoAnnouncement);
    }
    if competition.public_nonces.is_some() {
        return Ok(ContractNeed::Nothing);
    }
    Ok(ContractNeed::Build)
}

/// The player who made an entry with a ticket.
pub open spec fn player_from(entry: UserEntry, ticket: Ticket) -> Result<
    (Seq<u8>, Seq<u8>, Seq<u8>),
    ContractError,
> {
    match point_of_hex(entry.ephemeral_pubkey@) {
        None => Err(ContractError::InvalidEntryKey(entry.id)),
        Some(pubkey) => match hash32(ticket.hash@) {
            None => Err(ContractError::InvalidTicketHash(entry.id)),
            Some(ticket_hash) => match hash32(entry.payout_hash@) {
                None => Err(ContractError::InvalidPayoutHash(entry.id)),
                Some(payout_hash) => Ok((pubkey, ticket_hash, payout_hash)),
            },
        },
    }
}

/// The players who made the entries, in order. An entry whose ticket is missing has no player.
pub open spec fn players_from(entries: Seq<UserEntry>, tickets: Map<Uuid, Ticket>) -> Result<
    Seq<(Seq<u8>, Seq<u8>, Seq<u8>)>,
    ContractError,
>
    decreases entries.len(),
{
    if entries.len() == 0 {
        Ok(Seq::empty())
    } else {
        match players_from(entries.drop_last(), tickets) {
            Err(error) => Err(error),
            Ok(players) => if tickets.contains_key(entries.last().id) {
                match player_from(entries.last(), tickets[entries.last().id]) {
                    Err(error) => Err(error),
                    Ok(player) => Ok(players.push(player)),
                }
            } else {
                Ok(players)
            },
        }
    }
}

/// The first error stays the first, whatever entries follow.
proof fn players_fault_is_final(entries: Seq<UserEntry>, tickets: Map<Uuid, Ticket>, upto: int)
    requires
        0 <= upto <= entries.len(),
        players_from(entries.take(upto), tickets) is Err,
    ensures
        players_from(entries, tickets) == players_from(entries.take(upto), tickets),
    decreases entries.len() - upto,
{
    if upto < entries.len() {
        assert(entries.take(upto + 1).drop_last() =~= entries.take(upto));
        players_fault_is_final(entries, tickets, upto + 1);
    } else {
        assert(entries.take(upto) =~= entries);
    }
}

/// The player who made an entry with a ticket.
fn make_player(entry: &UserEntry, ticket: &Ticket) -> (made: Result<Player, ContractError>)
    ensures
        match player_from(*entry, *ticket) {
            Ok(expected) => made matches Ok(player) && player_view(player) == expected,
            Err(error) => made matches Err(told) && told == error,
        },
{
    let pubkey = match point_from_hex(entry.ephemeral_pubkey.as_str()) {
        Some(pubkey) => pubkey,
        None => {
            return Err(ContractError::InvalidEntryKey(entry.id));
        },
    };
    let ticket_hash = match parse_hash32(ticket.hash.as_str()) {
        Some(hash) => hash,
        None => {
            return Err(ContractError::InvalidTicketHash(entry.id));
        },
    };
    let payout_hash = match parse_hash32(entry.payout_hash.as_str()) {
        Some(hash) => hash,
        None => {
            return Err(ContractError::InvalidPayoutHash(entry.id));
        },
    };
    Ok(Player { pubkey, ticket_hash, payout_hash })
}

/// The players of a contract, in the order of `entries`. `tickets` are found by the entry that
/// was made with them; an entry whose ticket is missing is passed over.
pub fn generate_players(entries: &Vec<UserEntry>, tickets: &HashMap<Uuid, Ticket>) -> (made: Result<
    Vec<Player>,
    ContractError,
>)
    ensures
        match players_from(entries@, tickets@) {
            Ok(expected) => made matches Ok(players) && players_view(players@) == expected,
            Err(error) => made matches Err(told) && told == error,
        },
{
    let mut players: Vec<Player> = Vec::new();
    let mut i: usize = 0;
    let ghost viewed = |player: Player| player_view(player);
    assert(entries@.take(0) =~= Seq::empty());
    assert(players@.map_values(viewed) =~= Seq::empty());
    while i < entries.len()
        invariant
            i <= entries@.len(),
            viewed == (|player: Player| player_view(player)),
            players_from(entries@.take(i as int), tickets@) == Ok::<
                Seq<(Seq<u8>, Seq<u8>, Seq<u8>)>,
                ContractError,
            >(players@.map_values(viewed)),
        decreases entries@.len() - i,
    {
        assert(entries@.take(i + 1).drop_last() =~= entries@.take(i as int));
        let entry = &entries[i];
        if let Some(ticket) = tickets.get(&entry.id) {
            match make_player(entry, ticket) {
                Ok(player) => {
                    let ghost before = players@;
                    players.push(player);
                    assert(players@.map_values(viewed) =~= before.map_values(viewed).push(
                        player_view(player),
                    ));
                },
                Err(error) => {
                    proof {
                        players_fault_is_final(entries@, tickets@, i + 1);
                    }
                    return Err(error);
                },
            }
        }
        i = i + 1;
    }
    assert(entries@.take(i as int) =~= entries@);
    Ok(players)
}

impl Coordinator {
    /// The terms of a new contract. The competition's own timelock takes precedence.
    pub fn contract_terms(
        &self,
        competition: &Competition,
        market_maker: Vec<u8>,
        players: Vec<Player>,
        event: EventAnnouncement,
        outcome_payouts: OutcomePayouts,
        fee_rate: u64,
    ) -> (terms: ContractParameters)
        ensures
            terms == (ContractParameters {
                market_maker,
                players,
                event,
                outcome_payouts,
                fee_rate,
                funding_value: competition.event_submission.total_competition_pool as u64,
                relative_locktime_block_delta: match
                    competition.event_submission.relative_locktime_block_delta {
                    Some(delta) => delta,
                    None => #[verifier::truncate] (self.relative_locktime_block_delta as u16),
                },
            }),
    {
        ContractParameters {
            market_maker,
            players,
            event,
            outcome_payouts,
            fee_rate,
            funding_value: competition.event_submission.total_competition_pool as u64,
            relative_locktime_block_delta: match
                competition.event_submission.relative_locktime_block_delta {
                Some(delta) => delta,
                None => #[verifier::truncate] (self.relative_locktime_block_delta as u16),
            },
        }
    }
}

/// Keep the terms that a competition was given first.
pub fn keep_terms(competition: &mut Competition, terms: ContractParameters)
    ensures
        *final(competition) == (Competition {
            contract_parameters: match old(competition).contract_parameters {
                Some(kept) => Some(kept),
                None => Some(terms),
            },
            ..*old(competition)
        }),
{
    if competition.contract_parameters.is_none() {
        competition.contract_parameters = Some(terms);
    }
}

/// An escrow output that the funding transaction spends.
#[derive(Debug)]
pub struct EscrowInput {
    pub outpoint: OutPoint,
    pub value: u64,
    pub script_pubkey: Vec<u8>,
    /// The player's key, as the escrow is locked with it.
    pub user_pubkey: Vec<u8>,
    /// The hash that the escrow is locked with.
    pub payment_hash: Vec<u8>,
}

/// What is told of an escrow output, with its bytes as sequences.
pub struct EscrowInputView {
    pub txid: Seq<u8>,
    pub vout: u32,
    pub value: u64,
    pub script_pubkey: Seq<u8>,
    pub user_pubkey: Seq<u8>,
    pub payment_hash: Seq<u8>,
}

impl View for EscrowInput {
    type V = EscrowInputView;

    open spec fn view(&self) -> EscrowInputView {
        EscrowInputView {
            txid: self.outpoint.txid@,
            vout: self.outpoint.vout,
            value: self.value,
            script_pubkey: self.script_pubkey@,
            user_pubkey: self.user_pubkey@,
            payment_hash: self.payment_hash@,
        }
    }
}

/// The transaction that a ticket's escrow text stands for.
pub open spec fn escrow_parts(escrow: Seq<char>) -> Option<(Seq<u8>, Seq<(u64, Seq<u8>)>)> {
    if is_hex(escrow) {
        transaction_parts(hex_bytes(escrow))
    } else {
        None
    }
}

/// The escrow output of a ticket, at this index of its escrow transaction. The escrow has to be
/// locked with the entry's own key and with the hash of the ticket's preimage.
pub open spec fn escrow_input(ticket: Ticket, vout: u32, entries: Seq<UserEntry>) -> Result<
    EscrowInputView,
    ContractError,
> {
    match ticket.escrow_transaction {
        None => Err(ContractError::MissingEscrow(ticket.id)),
        Some(escrow) => match escrow_parts(escrow@) {
            None => Err(ContractError::InvalidEscrow(ticket.id)),
            Some((txid, outputs)) => if vout >= outputs.len() {
                Err(ContractError::MissingEscrowOutput(ticket.id))
            } else {
                match entry_with_id(entries, ticket.entry_id->0, 0) {
                    None => Err(ContractError::MissingEntry(ticket.id)),
                    Some(at) => match escrow_lock(ticket, entries[at]) {
                        Err(error) => Err(error),
                        Ok((user_pubkey, payment_hash)) => Ok(
                            EscrowInputView {
                                txid,
                                vout,
                                value: outputs[vout as int].0,
                                script_pubkey: outputs[vout as int].1,
                                user_pubkey,
                                payment_hash,
                            },
                        ),
                    },
                }
            },
        },
    }
}

/// The key and the hash that a ticket's escrow is locked with.
pub open spec fn escrow_lock(ticket: Ticket, entry: UserEntry) -> Result<
    (Seq<u8>, Seq<u8>),
    ContractError,
> {
    match ticket.ephemeral_pubkey {
        None => Err(ContractError::MissingEscrowKey(ticket.id)),
        Some(locked_with) => if locked_with@ != entry.ephemeral_pubkey@ {
            Err(ContractError::EscrowKeyMismatch(ticket.id))
        } else {
            match public_key_bytes(entry.ephemeral_pubkey@) {
                None => Err(ContractError::InvalidEscrowKey(ticket.id)),
                Some(user_pubkey) => match hash32(ticket.hash@) {
                    None => Err(ContractError::InvalidTicketHash(ticket.id)),
                    Some(hash) => if !is_hex(ticket.encrypted_preimage@) {
                        Err(ContractError::InvalidPreimage(ticket.id))
                    } else if sha256_digest(hex_bytes(ticket.encrypted_preimage@)) != hash {
                        Err(ContractError::PaymentHashMismatch(ticket.id))
                    } else {
                        Ok((user_pubkey, hash))
                    },
                },
            }
        },
    }
}

/// The key and the hash that a ticket's escrow is locked with.
fn check_escrow_lock(ticket: &Ticket, entry: &UserEntry) -> (lock: Result<
    (Vec<u8>, Vec<u8>),
    ContractError,
>)
    ensures
        match escrow_lock(*ticket, *entry) {
            Ok(expected) => lock matches Ok(found) && (found.0@, found.1@) == expected,
            Err(error) => lock matches Err(told) && told == error,
        },
{
    let locked_with = match &ticket.ephemeral_pubkey {
        Some(key) => key,
        None => {
            return Err(ContractError::MissingEscrowKey(ticket.id));
        },
    };
    if !(*locked_with == entry.ephemeral_pubkey) {
        return Err(ContractError::EscrowKeyMismatch(ticket.id));
    }
    let user_pubkey = match public_key_from_str(entry.ephemeral_pubkey.as_str()) {
        Some(key) => key,
        None => {
            return Err(ContractError::InvalidEscrowKey(ticket.id));
        },
    };
    let hash = match parse_hash32(ticket.hash.as_str()) {
        Some(hash) => hash,
        None => {
            return Err(ContractError::InvalidTicketHash(ticket.id));
        },
    };
    let preimage = match hex_decode(ticket.encrypted_preimage.as_str()) {
        Some(preimage) => preimage,
        None => {
            return Err(ContractError::InvalidPreimage(ticket.id));
        },
    };
    if !same_bytes(&sha256(&preimage), &hash) {
        return Err(ContractError::PaymentHashMismatch(ticket.id));
    }
    Ok((user_pubkey, hash))
}

/// The transaction that a ticket's escrow text stands for.
pub fn read_escrow(escrow: &String) -> (parts: Option<TxParts>)
    ensures
        parts_view(parts) == escrow_parts(escrow@),
        parts matches Some(read) ==> read.txid@.len() == 32,
{
    match hex_decode(escrow.as_str()) {
        Some(raw) => decode_transaction(&raw),
        None => None,
    }
}

/// The escrow output of a ticket, at this index of its escrow transaction, checked against the
/// entry that was made with the ticket.
pub fn check_escrow_input(ticket: &Ticket, vout: u32, entries: &Vec<UserEntry>) -> (checked: Result<
    EscrowInput,
    ContractError,
>)
    requires
        ticket.entry_id is Some,
    ensures
        match escrow_input(*ticket, vout, entries@) {
            Ok(expected) => checked matches Ok(input) && input@ == expected,
            Err(error) => checked matches Err(told) && told == error,
        },
{
    let escrow = match &ticket.escrow_transaction {
        Some(escrow) => escrow,
        None => {
            return Err(ContractError::MissingEscrow(ticket.id));
        },
    };
    let parts = match read_escrow(escrow) {
        Some(parts) => parts,
        None => {
            return Err(ContractError::InvalidEscrow(ticket.id));
        },
    };
    if vout as u64 >= parts.outputs.len() as u64 {
        return Err(ContractError::MissingEscrowOutput(ticket.id));
    }
    let entry_id: Uuid = match ticket.entry_id {
        Some(id) => id,
        None => {
            return Err(ContractError::MissingEntry(ticket.id));
        },
    };
    let at: usize = match find_entry(entries, entry_id) {
        Some(at) => at,
        None => {
            return Err(ContractError::MissingEntry(ticket.id));
        },
    };
    let (user_pubkey, payment_hash) = match check_escrow_lock(ticket, &entries[at]) {
        Ok(lock) => lock,
        Err(error) => {
            return Err(error);
        },
    };
    let mut outputs = parts.outputs;
    let output = outputs.swap_remove(vout as usize);
    Ok(
        EscrowInput {
            outpoint: OutPoint { txid: parts.txid, vout },
            value: output.value,
            script_pubkey: output.script_pubkey,
            user_pubkey,
            payment_hash,
        },
    )
}

/// The first output from the `from`th on that pays `value` to `script`.
pub open spec fn paying_output(
    outputs: Seq<(u64, Seq<u8>)>,
    script: Seq<u8>,
    value: u64,
    from: int,
) -> Option<int>
    decreases outputs.len() - from,
{
    if from < 0 || from >= outputs.len() {
        None
    } else if outputs[from] == (value, script) {
        Some(from)
    } else {
        paying_output(outputs, script, value, from + 1)
    }
}

/// The output of a funding transaction that funds the contract.
pub fn find_funding_output(outputs: &Vec<TxOutput>, funding_script: &Vec<u8>, funding_value: u64) -> (
found: Result<usize, ContractError>)
    ensures
        match paying_output(outputs_view(outputs@), funding_script@, funding_value, 0) {
            Some(at) => found matches Ok(index) && index == at && at < outputs@.len(),
            None => found matches Err(error) && error == ContractError::NoFundingOutput,
        },
{
    let mut i: usize = 0;
    while i < outputs.len()
        invariant
            i <= outputs@.len(),
            paying_output(outputs_view(outputs@), funding_script@, funding_value, 0)
                == paying_output(
                outputs_view(outputs@),
                funding_script@,
                funding_value,
                i as int,
            ),
        decreases outputs@.len() - i,
    {
        if same_bytes(&outputs[i].script_pubkey, funding_script) && outputs[i].value
            == funding_value {
            return Ok(i);
        }
        i = i + 1;
    }
    Err(ContractError::NoFundingOutput)
}

/// Keep the funding transaction that was built first, with the output that funds the contract.
pub fn keep_funding_psbt(competition: &mut Competition, psbt_base64: String, outpoint: OutPoint)
    ensures
        old(competition).funding_psbt_base64 is Some ==> *final(competition) == *old(competition),
        old(competition).funding_psbt_base64 is None ==> *final(competition) == (Competition {
            funding_psbt_base64: Some(psbt_base64),
            funding_outpoint: Some(outpoint),
            ..*old(competition)
        }),
{
    if competition.funding_psbt_base64.is_none() {
        competition.funding_psbt_base64 = Some(psbt_base64);
        competition.funding_outpoint = Some(outpoint);
    }
}

/// Inputs that could not be reserved are released only if they were picked for this attempt.
pub fn release_after_failed_reservation(competition: &Competition) -> (release: bool)
    ensures
        release == (competition.funding_psbt_base64 is None),
{
    competition.funding_psbt_base64.is_none()
}

/// What an entry's key is registered with Keymeld under.
#[derive(Debug)]
pub struct ParticipantRegistrationData {
    pub user_id: Uuid,
    pub encrypted_private_key: String,
    pub public_key: String,
    pub auth_pubkey: String,
    pub context: RegistrationContext,
}

/// What an entry's key is registered with Keymeld under, or what it lacks for that.
pub open spec fn registration_of(entry: UserEntry) -> Result<
    ParticipantRegistrationData,
    ContractError,
> {
    if entry.encrypted_keymeld_private_key is None {
        Err(ContractError::MissingSealedKey(entry.id))
    } else if entry.keymeld_auth_pubkey is None {
        Err(ContractError::MissingAuthKey(entry.id))
    } else if entry.keymeld_registration_context is None {
        Err(ContractError::MissingContext(entry.id))
    } else {
        Ok(
            ParticipantRegistrationData {
                user_id: entry.ticket_id,
                encrypted_private_key: entry.encrypted_keymeld_private_key->0,
                public_key: entry.ephemeral_pubkey,
                auth_pubkey: entry.keymeld_auth_pubkey->0,
                context: entry.keymeld_registration_context->0,
            },
        )
    }
}

/// What an entry's key is registered with Keymeld under: its ticket is the user. An entry that was
/// accepted without its envelope, its authentication key or its context cannot be registered.
pub fn registration_data(entry: &UserEntry) -> (data: Result<
    ParticipantRegistrationData,
    ContractError,
>)
    ensures
        data == registration_of(*entry),
{
    let encrypted_private_key = match &entry.encrypted_keymeld_private_key {
        Some(sealed) => sealed.clone(),
        None => {
            return Err(ContractError::MissingSealedKey(entry.id));
        },
    };
    let auth_pubkey = match &entry.keymeld_auth_pubkey {
        Some(key) => key.clone(),
        None => {
            return Err(ContractError::MissingAuthKey(entry.id));
        },
    };
    let context = match &entry.keymeld_registration_context {
        Some(context) => context.duplicate(),
        None => {
            return Err(ContractError::MissingContext(entry.id));
        },
    };
    Ok(
        ParticipantRegistrationData {
            user_id: entry.ticket_id,
            encrypted_private_key,
            public_key: entry.ephemeral_pubkey.clone(),
            auth_pubkey,
            context,
        },
    )
}

/// The contract is built: keep the nonces that were made first, and start afresh with the errors.
/// Where Keymeld signs, there are none of the coordinator's own.
pub fn contract_was_built(competition: &mut Competition, own_nonces: Option<SigMap>, now: Timestamp)
    ensures
        final(competition).errors@.len() == 0,
        *final(competition) == (Competition {
            public_nonces: match old(competition).public_nonces {
                Some(kept) => Some(kept),
                None => match own_nonces {
                    Some(nonces) => Some(nonces),
                    None => Some(SigMap::Empty),
                },
            },
            contracted_at: Some(now),
            errors: final(competition).errors,
            ..*old(competition)
        }),
{
    if competition.public_nonces.is_none() {
        competition.public_nonces = match own_nonces {
            Some(nonces) => Some(nonces),
            None => Some(SigMap::Empty),
        };
    }
    competition.contracted_at = Some(now);
    competition.errors = Vec::new();
}

/// The later of two.
pub open spec fn later(a: int, b: int) -> int {
    if a >= b {
        a
    } else {
        b
    }
}

/// Until when the funding inputs of a competition stay reserved, in UNIX seconds: a day past the
/// last of its dates and the present.
pub open spec fn reservation_deadline(competition: Competition, now: int) -> int {
    let expiry = match competition.event_announcement {
        Some(event) => match event.expiry {
            Some(expiry) => expiry as int,
            None => 0,
        },
        None => 0,
    };
    later(
        later(
            later(
                whole_seconds(competition.event_submission.signing_date as int),
                whole_seconds(competition.event_submission.end_observation_date as int),
            ),
            expiry,
        ),
        whole_seconds(now),
    ) + 24 * 60 * 60
}

impl Competition {
    /// Until when the funding inputs stay reserved, in UNIX seconds. A competition still to come
    /// keeps them past its own dates; one that is overdue keeps them for another day.
    pub fn funding_reservation_deadline(&self, now: Timestamp) -> (deadline: Result<
        u64,
        ContractError,
    >)
        requires
            is_datetime(now as int),
            is_datetime(self.event_submission.signing_date as int),
            is_datetime(self.event_submission.end_observation_date as int),
        ensures
            deadline matches Ok(at) && at == reservation_deadline(*self, now as int),
    {
        let mut last: i64 = unix_timestamp(self.event_submission.signing_date);
        let closes: i64 = unix_timestamp(self.event_submission.end_observation_date);
        if closes > last {
            last = closes;
        }
        let expiry: i64 = match &self.event_announcement {
            Some(event) => match event.expiry {
                Some(expiry) => expiry as i64,
                None => 0,
            },
            None => 0,
        };
        if expiry > last {
            last = expiry;
        }
        let present: i64 = unix_timestamp(now);
        if present > last {
            last = present;
        }
        match last.checked_add(24 * 60 * 60) {
            Some(deadline) => if deadline >= 0 {
                Ok(deadline as u64)
            } else {
                Err(ContractError::DeadlineOverflow)
            },
            None => Err(ContractError::DeadlineOverflow),
        }
    }

    /// The funding inputs have to stay reserved: the funding transaction is built and not broadcast.
    pub fn needs_funding_reservation(&self) -> (needs: bool)
        ensures
            needs == (self.funding_broadcasted_at is None && self.funding_psbt_base64 is Some),
    {
        self.funding_broadcasted_at.is_none() && self.funding_psbt_base64.is_some()
    }
}

} // verus!
