//! Automatic payouts: what a player agrees to before they pay, and what they are told of their
//! payout.

use crate::claims::{
    is_settling_on_chain, owed_sats, owed_to, settles_on_chain, ClaimError, PayoutPolicy,
};
use crate::competition::{Competition, Uuid};
use crate::contract::OutcomePayouts;
use crate::encoding::{hash32, parse_hash32};
use crate::entering::AddEntry;
use crate::entries::{Ticket, UserEntry};
use crate::ids::{uuid_version, version};
use crate::lifecycle::Coordinator;
use crate::payout_schedule::ClaimStatus;
use crate::payouts::{is_slot_payouts, places_weigh, same_bytes, slot_payouts};
use crate::rankings::rankings_fit;
use vstd::prelude::*;

verus! {

/// Why a payout is not agreed to, or nothing is told of it.
#[derive(Clone, Copy, PartialEq, Eq, Structural, Debug)]
pub enum PolicyError {
    /// Automatic payouts need Keymeld.
    NoKeymeld,
    /// The ceiling for the contract's fee is none.
    InvalidFeeCeiling,
    /// Keymeld's enclaves do not support the payout that is asked for.
    Unsupported,
    /// The entry's id does not begin with the time, or its key is not compressed.
    InvalidEntry,
    /// The payout hash is none.
    InvalidPayoutHash,
    /// No way to be paid was chosen, or the key may not be released once it is paid.
    NotAuthorized,
    /// The Lightning address is none.
    InvalidAddress,
    /// The ticket is none of the competition's.
    TicketAbsent,
    /// The oracle has not announced the event.
    NoAnnouncement,
    /// The ticket's hash is none.
    InvalidTicketHash,
    /// There are no payouts for so many players and winners.
    InvalidCounts,
    /// The ticket was paid for without an agreement.
    NoPolicy,
    /// The entry has another key than was agreed on.
    KeyDiffers,
    /// The entry is another than was agreed on.
    EntryDiffers,
    EntryNotFound,
    /// The entry is from before automatic payouts.
    LegacyEntry,
    /// The contract is not built yet.
    NoContract,
    /// What the entry is owed is not known.
    NotOwed(ClaimError),
    /// The entry was not registered with Keymeld.
    NoContext,
    /// The funding transaction is not built yet.
    NoFunding,
    /// The contract's digest could not be made.
    NoDigest,
    /// The amount is too large to be counted.
    AmountOverflow,
    /// The winner may not send an invoice of their own.
    NoFallback,
    /// The pot is already being paid out on-chain.
    OnChain,
    /// The invoice is not for what is owed, or has expired.
    InvalidInvoice,
    /// The winner's signature is good for too long.
    AuthorizedTooLong,
    /// The entry's stored key is not in hexadecimal.
    InvalidStoredKey,
    /// The winner did not sign for this invoice.
    NotSigned,
}

/// Satoshis per 1000 weight units, for one per virtual byte.
pub const KWU_PER_VB: u64 = 250;

impl Coordinator {
    /// Pay winners automatically, or not, with a ceiling for what the contract may pay the miners.
    pub fn with_automatic_payouts(self, enabled: bool, max_fee_rate_sat_vb: u64) -> (set: Result<
        Self,
        PolicyError,
    >)
        ensures
            set == if enabled && !self.keymeld_enabled {
                Err::<Self, PolicyError>(PolicyError::NoKeymeld)
            } else if max_fee_rate_sat_vb == 0 || max_fee_rate_sat_vb * KWU_PER_VB > u64::MAX {
                Err::<Self, PolicyError>(PolicyError::InvalidFeeCeiling)
            } else {
                Ok::<Self, PolicyError>(
                    Coordinator {
                        automatic_payouts: enabled,
                        automatic_payout_max_fee_rate: (max_fee_rate_sat_vb * KWU_PER_VB) as u64,
                        ..self
                    },
                )
            },
    {
        if enabled && !self.keymeld_enabled {
            return Err(PolicyError::NoKeymeld);
        }
        if max_fee_rate_sat_vb == 0 {
            return Err(PolicyError::InvalidFeeCeiling);
        }
        match max_fee_rate_sat_vb.checked_mul(KWU_PER_VB) {
            None => Err(PolicyError::InvalidFeeCeiling),
            Some(rate) => Ok(
                Coordinator {
                    automatic_payouts: enabled,
                    automatic_payout_max_fee_rate: rate,
                    ..self
                },
            ),
        }
    }

    /// Check that Keymeld's enclaves can pay out as is asked: at all, and to a Lightning address
    /// where there is one.
    pub fn require_payout_capabilities(&self, payout: bool, lnurl: bool, needs_lnurl: bool) -> (checked:
        Result<(), PolicyError>)
        ensures
            checked == if !self.keymeld_enabled {
                Err::<(), PolicyError>(PolicyError::NoKeymeld)
            } else if !payout || (needs_lnurl && !lnurl) {
                Err::<(), PolicyError>(PolicyError::Unsupported)
            } else {
                Ok::<(), PolicyError>(())
            },
    {
        if !self.keymeld_enabled {
            return Err(PolicyError::NoKeymeld);
        }
        if !payout || (needs_lnurl && !lnurl) {
            return Err(PolicyError::Unsupported);
        }
        Ok(())
    }

    /// The timelock of a competition's contract: its own, or else the coordinator's.
    pub open spec fn timelock(self, competition: Competition) -> u16 {
        match competition.event_submission.relative_locktime_block_delta {
            Some(delta) => delta,
            None => #[verifier::truncate] (self.relative_locktime_block_delta as u16),
        }
    }

    /// What a player is told of a competition's payouts before they enter.
    pub fn payout_terms_quote(&self, competition: &Competition, automatic: bool, ark_funded: bool) -> (
        quote: PayoutTermsQuote)
        ensures
            quote == (PayoutTermsQuote {
                enabled: automatic,
                relative_locktime_block_delta: self.timelock(*competition),
                max_fee_rate_sat_vb: self.automatic_payout_max_fee_rate / KWU_PER_VB,
                arkade: ark_funded,
            }),
    {
        PayoutTermsQuote {
            enabled: automatic,
            relative_locktime_block_delta: match
                competition.event_submission.relative_locktime_block_delta {
                Some(delta) => delta,
                None => #[verifier::truncate] (self.relative_locktime_block_delta as u16),
            },
            max_fee_rate_sat_vb: self.automatic_payout_max_fee_rate / KWU_PER_VB,
            arkade: ark_funded,
        }
    }
}

/// What a player is told of a competition's payouts before they enter.
#[derive(Clone, Copy, PartialEq, Eq, Structural, Debug)]
pub struct PayoutTermsQuote {
    pub enabled: bool,
    pub relative_locktime_block_delta: u16,
    /// In satoshis per virtual byte, rounded down.
    pub max_fee_rate_sat_vb: u64,
    /// Buy-ins wait in Arkade escrows, refunded to the entry's Lightning address if the pool never
    /// starts.
    pub arkade: bool,
}

/// How a player wants to be paid, as they say it before they pay.
#[derive(Debug)]
pub struct PayoutRegistrationRequest {
    pub entry_id: Uuid,
    pub payout_hash: String,
    pub lightning_address: Option<String>,
    pub allow_invoice_fallback: bool,
    pub release_entry_key_after_payment: bool,
}

/// The length of a compressed public key.
pub const COMPRESSED_KEY: usize = 33;

/// What is wrong with a player's choice, if anything. `address_is_valid` is whether the Lightning
/// address is one, where they gave one.
pub open spec fn choice_fault(
    entry_pubkey: Seq<u8>,
    choice: PayoutRegistrationRequest,
    address_is_valid: bool,
) -> Option<PolicyError> {
    if version(choice.entry_id) != 7 || entry_pubkey.len() != COMPRESSED_KEY {
        Some(PolicyError::InvalidEntry)
    } else if hash32(choice.payout_hash@) is None {
        Some(PolicyError::InvalidPayoutHash)
    } else if !choice.release_entry_key_after_payment || (!choice.allow_invoice_fallback
        && choice.lightning_address is None) {
        Some(PolicyError::NotAuthorized)
    } else if choice.lightning_address is Some && !address_is_valid {
        Some(PolicyError::InvalidAddress)
    } else {
        None
    }
}

/// Check how a player wants to be paid, before a ticket is reserved for them: their entry has an id
/// that begins with the time and a compressed key, the payout hash is one, they chose a way to be
/// paid, and they agree that their key is released once they are. `address_is_valid` is whether the
/// Lightning address is one, where they gave one.
pub fn validate_ticket_payout_choice(
    entry_pubkey: &Vec<u8>,
    choice: &PayoutRegistrationRequest,
    address_is_valid: bool,
) -> (validated: Result<(), PolicyError>)
    ensures
        match choice_fault(entry_pubkey@, *choice, address_is_valid) {
            Some(error) => validated == Err::<(), PolicyError>(error),
            None => validated is Ok,
        },
{
    if uuid_version(choice.entry_id) != 7 || entry_pubkey.len() != COMPRESSED_KEY {
        return Err(PolicyError::InvalidEntry);
    }
    if parse_hash32(choice.payout_hash.as_str()).is_none() {
        return Err(PolicyError::InvalidPayoutHash);
    }
    if !choice.release_entry_key_after_payment || (!choice.allow_invoice_fallback
        && choice.lightning_address.is_none()) {
        return Err(PolicyError::NotAuthorized);
    }
    if choice.lightning_address.is_some() && !address_is_valid {
        return Err(PolicyError::InvalidAddress);
    }
    Ok(())
}

/// The terms of the contract that a player agrees to before they pay, as far as the competition and
/// their ticket fix them.
#[derive(Debug)]
pub struct ContractAuthorization {
    pub competition_id: Uuid,
    pub entry_id: Uuid,
    /// Where the player stands among the contract's.
    pub player_index: usize,
    pub player_count: usize,
    pub ticket_hash: Vec<u8>,
    pub payout_hash: Vec<u8>,
    pub outcome_payouts: OutcomePayouts,
    pub funding_value: u64,
    pub relative_locktime_block_delta: u16,
    /// In satoshis per 1000 weight units.
    pub max_fee_rate: u64,
}

/// Where the ticket stands among the competition's, from the `from`th on.
pub open spec fn ticket_position(tickets: Seq<Uuid>, id: Uuid, from: int) -> Option<int>
    decreases tickets.len() - from,
{
    if from < 0 || from >= tickets.len() {
        None
    } else if tickets[from] == id {
        Some(from)
    } else {
        ticket_position(tickets, id, from + 1)
    }
}

/// Where the ticket stands among the competition's.
fn find_ticket(tickets: &Vec<Uuid>, id: Uuid) -> (found: Option<usize>)
    ensures
        match ticket_position(tickets@, id, 0) {
            Some(at) => found matches Some(found) && found == at,
            None => found is None,
        },
{
    let mut i: usize = 0;
    while i < tickets.len()
        invariant
            i <= tickets@.len(),
            ticket_position(tickets@, id, 0) == ticket_position(tickets@, id, i as int),
        decreases tickets@.len() - i,
    {
        if tickets[i] == id {
            return Some(i);
        }
        i = i + 1;
    }
    None
}

/// Why the terms cannot be fixed, if so.
pub open spec fn terms_fault(
    competition: Competition,
    ticket: Ticket,
    tickets: Seq<Uuid>,
    payout_hash: Seq<char>,
) -> Option<PolicyError> {
    let places = competition.event_submission.number_of_places_win;
    if ticket_position(tickets, ticket.id, 0) is None {
        Some(PolicyError::TicketAbsent)
    } else if competition.event_announcement is None {
        Some(PolicyError::NoAnnouncement)
    } else if hash32(ticket.hash@) is None {
        Some(PolicyError::InvalidTicketHash)
    } else if hash32(payout_hash) is None {
        Some(PolicyError::InvalidPayoutHash)
    } else if !(0 < places <= tickets.len() <= 100) {
        Some(PolicyError::InvalidCounts)
    } else {
        None
    }
}

impl Coordinator {
    /// The terms that a player agrees to before they pay for a ticket. `tickets` are the
    /// competition's, in order, which is that of the contract's players.
    pub fn prepare_ticket_payout_policy(
        &self,
        competition: &Competition,
        ticket: &Ticket,
        tickets: &Vec<Uuid>,
        choice: &PayoutRegistrationRequest,
    ) -> (terms: Result<ContractAuthorization, PolicyError>)
        requires
            0 < competition.event_submission.number_of_places_win <= tickets@.len() <= 100
                ==> rankings_fit(
                tickets@.len(),
                competition.event_submission.number_of_places_win as nat,
            ) && places_weigh(
                tickets@.len(),
                competition.event_submission.number_of_places_win as nat,
            ),
        ensures
            match terms_fault(*competition, *ticket, tickets@, choice.payout_hash@) {
                Some(error) => terms matches Err(told) && told == error,
                None => terms matches Ok(terms) && {
                    &&& terms.competition_id == competition.id
                    &&& terms.entry_id == choice.entry_id
                    &&& terms.player_index == ticket_position(tickets@, ticket.id, 0)->0
                    &&& terms.player_count == tickets@.len()
                    &&& Some(terms.ticket_hash@) == hash32(ticket.hash@)
                    &&& Some(terms.payout_hash@) == hash32(choice.payout_hash@)
                    &&& is_slot_payouts(
                        terms.outcome_payouts,
                        tickets@.len(),
                        competition.event_submission.number_of_places_win as nat,
                    )
                    &&& terms.funding_value == competition.event_submission.total_competition_pool
                    &&& terms.relative_locktime_block_delta == self.timelock(*competition)
                    &&& terms.max_fee_rate == self.automatic_payout_max_fee_rate
                },
            },
    {
        let player_index: usize = match find_ticket(tickets, ticket.id) {
            Some(at) => at,
            None => {
                return Err(PolicyError::TicketAbsent);
            },
        };
        if competition.event_announcement.is_none() {
            return Err(PolicyError::NoAnnouncement);
        }
        let ticket_hash = match parse_hash32(ticket.hash.as_str()) {
            Some(hash) => hash,
            None => {
                return Err(PolicyError::InvalidTicketHash);
            },
        };
        let payout_hash = match parse_hash32(choice.payout_hash.as_str()) {
            Some(hash) => hash,
            None => {
                return Err(PolicyError::InvalidPayoutHash);
            },
        };
        let outcome_payouts = match slot_payouts(
            tickets.len(),
            competition.event_submission.number_of_places_win,
        ) {
            Ok(payouts) => payouts,
            Err(_) => {
                return Err(PolicyError::InvalidCounts);
            },
        };
        Ok(
            ContractAuthorization {
                competition_id: competition.id,
                entry_id: choice.entry_id,
                player_index,
                player_count: tickets.len(),
                ticket_hash,
                payout_hash,
                outcome_payouts,
                funding_value: competition.event_submission.total_competition_pool as u64,
                relative_locktime_block_delta: match
                    competition.event_submission.relative_locktime_block_delta {
                    Some(delta) => delta,
                    None => #[verifier::truncate] (self.relative_locktime_block_delta as u16),
                },
                max_fee_rate: self.automatic_payout_max_fee_rate,
            },
        )
    }
}

/// What was agreed on before a ticket was paid for: the entry, the competition, the payout hash, and
/// the entry's key.
#[derive(Debug)]
pub struct AgreedEntry {
    pub entry_id: Uuid,
    pub competition_id: Uuid,
    pub payout_hash: Vec<u8>,
    pub entry_pubkey: String,
}

/// Check that an entry is the one that was agreed on before its ticket was paid for. A competition
/// that is not paid out automatically needs no agreement.
pub fn validate_entry_payout_policy(entry: &AddEntry, automatic: bool, agreed: &Option<AgreedEntry>) -> (
    validated: Result<bool, PolicyError>)
    ensures
        validated == if !automatic {
            Ok::<bool, PolicyError>(false)
        } else {
            match *agreed {
                None => Err::<bool, PolicyError>(PolicyError::NoPolicy),
                Some(agreed) => if agreed.entry_pubkey@ != entry.ephemeral_pubkey@ {
                    Err::<bool, PolicyError>(PolicyError::KeyDiffers)
                } else if agreed.entry_id != entry.id || agreed.competition_id != entry.event_id
                    || Some(agreed.payout_hash@) != hash32(entry.payout_hash@) {
                    Err::<bool, PolicyError>(PolicyError::EntryDiffers)
                } else {
                    Ok::<bool, PolicyError>(true)
                },
            }
        },
{
    if !automatic {
        return Ok(false);
    }
    let agreed = match agreed {
        Some(agreed) => agreed,
        None => {
            return Err(PolicyError::NoPolicy);
        },
    };
    if agreed.entry_pubkey != entry.ephemeral_pubkey {
        return Err(PolicyError::KeyDiffers);
    }
    if agreed.entry_id != entry.id || agreed.competition_id != entry.event_id {
        return Err(PolicyError::EntryDiffers);
    }
    match parse_hash32(entry.payout_hash.as_str()) {
        Some(hash) => if same_bytes(&hash, &agreed.payout_hash) {
            Ok(true)
        } else {
            Err(PolicyError::EntryDiffers)
        },
        None => Err(PolicyError::EntryDiffers),
    }
}

/// What a player is told of an entry's payout, and signs an invoice of their own against.
#[derive(Debug)]
pub struct PayoutAuthorizationInfo {
    pub keygen_session_id: String,
    pub user_id: Uuid,
    pub competition_id: Uuid,
    pub entry_id: Uuid,
    pub contract_digest: String,
    pub amount_msat: u64,
    pub automatic_lightning_address: Option<String>,
    pub allow_invoice_fallback: bool,
    pub status: String,
}

/// What a winner is told while there is no claim.
pub const ON_CHAIN: &'static str = "On-chain settlement";

/// What a winner is told while there is no claim.
pub const AWAITING_PAYOUT: &'static str = "Awaiting payout";

/// What an entry's player is told of how its payout stands.
pub open spec fn told_status(claim: Option<ClaimStatus>, window_closed: bool, otherwise: Seq<char>) -> Seq<
    char,
> {
    match claim {
        Some(status) => match status {
            ClaimStatus::Paid => "Paid"@,
            ClaimStatus::Completing => "Paid; completing settlement"@,
            ClaimStatus::InProgress => "Payment in progress"@,
            ClaimStatus::Retrying => "Retrying automatically"@,
            ClaimStatus::Queued => "Queued automatically"@,
        },
        None => if window_closed {
            ON_CHAIN@
        } else {
            otherwise
        },
    }
}

/// What an entry's player is told of how its payout stands.
pub fn tell_status(claim: Option<ClaimStatus>, window_closed: bool, otherwise: &str) -> (status: String)
    ensures
        status@ == told_status(claim, window_closed, otherwise@),
{
    match claim {
        Some(status) => status.as_str().to_owned(),
        None => if window_closed {
            ON_CHAIN.to_owned()
        } else {
            otherwise.to_owned()
        },
    }
}

/// Why nothing is told of an entry's payout, if so.
pub open spec fn info_fault(
    entry: Option<UserEntry>,
    owner: Seq<char>,
    competition: Competition,
    policy: Option<PayoutPolicy>,
    contract_digest: Option<String>,
) -> Option<PolicyError> {
    match entry {
        None => Some(PolicyError::EntryNotFound),
        Some(entry) => if entry.pubkey@ != owner || entry.event_id != competition.id {
            Some(PolicyError::EntryNotFound)
        } else if policy is None {
            Some(PolicyError::LegacyEntry)
        } else if competition.contract_parameters is None {
            Some(PolicyError::NoContract)
        } else {
            match owed_to(competition, entry) {
                Err(error) => Some(PolicyError::NotOwed(error)),
                Ok(sats) => if entry.keymeld_registration_context is None {
                    Some(PolicyError::NoContext)
                } else if competition.funding_outpoint is None {
                    Some(PolicyError::NoFunding)
                } else if contract_digest is None {
                    Some(PolicyError::NoDigest)
                } else if sats * 1000 > u64::MAX {
                    Some(PolicyError::AmountOverflow)
                } else {
                    None
                },
            }
        },
    }
}

impl PayoutAuthorizationInfo {
    /// This tells how the entry's payout stands.
    pub open spec fn tells(
        self,
        competition: Competition,
        entry: UserEntry,
        policy: PayoutPolicy,
        window_closed: bool,
        claim: Option<ClaimStatus>,
    ) -> bool {
        let closed = window_closed || settles_on_chain(competition);
        &&& self.keygen_session_id == entry.keymeld_registration_context->0.keygen_session_id
        &&& self.user_id == entry.ticket_id
        &&& self.competition_id == competition.id
        &&& self.entry_id == entry.id
        &&& self.amount_msat == owed_to(competition, entry)->Ok_0 * 1000
        &&& self.automatic_lightning_address == policy.automatic_lightning_address
        &&& self.allow_invoice_fallback == (policy.allow_invoice_fallback && !closed
            && entry.paid_out_at is None)
        &&& self.status@ == told_status(claim, closed, AWAITING_PAYOUT@)
    }
}

/// What a player is told of the payout of their own entry, once it has won. `window_closed` is
/// whether payouts over Lightning are closed for the competition, `claim` how the entry's claim
/// stands, and `contract_digest` that of the contract and its funding.
pub fn payout_authorization_info(
    entry: Option<UserEntry>,
    owner: &String,
    competition: &Competition,
    policy: Option<PayoutPolicy>,
    window_closed: bool,
    claim: Option<ClaimStatus>,
    contract_digest: Option<String>,
) -> (told: Result<PayoutAuthorizationInfo, PolicyError>)
    ensures
        match info_fault(entry, owner@, *competition, policy, contract_digest) {
            Some(error) => told matches Err(fault) && fault == error,
            None => told matches Ok(info) && Some(info.contract_digest) == contract_digest
                && info.tells(*competition, entry->0, policy->0, window_closed, claim),
        },
{
    let entry = match entry {
        Some(entry) => entry,
        None => {
            return Err(PolicyError::EntryNotFound);
        },
    };
    if entry.pubkey != *owner || entry.event_id != competition.id {
        return Err(PolicyError::EntryNotFound);
    }
    let policy = match policy {
        Some(policy) => policy,
        None => {
            return Err(PolicyError::LegacyEntry);
        },
    };
    if competition.contract_parameters.is_none() {
        return Err(PolicyError::NoContract);
    }
    let sats: u64 = match owed_sats(competition, &entry) {
        Ok(sats) => sats,
        Err(error) => {
            return Err(PolicyError::NotOwed(error));
        },
    };
    let paid_out: bool = entry.paid_out_at.is_some();
    let keygen_session_id = match entry.keymeld_registration_context {
        Some(context) => context.keygen_session_id,
        None => {
            return Err(PolicyError::NoContext);
        },
    };
    if competition.funding_outpoint.is_none() {
        return Err(PolicyError::NoFunding);
    }
    let contract_digest = match contract_digest {
        Some(digest) => digest,
        None => {
            return Err(PolicyError::NoDigest);
        },
    };
    let amount_msat: u64 = match sats.checked_mul(1000) {
        Some(msat) => msat,
        None => {
            return Err(PolicyError::AmountOverflow);
        },
    };
    let closed: bool = window_closed || is_settling_on_chain(competition);
    Ok(
        PayoutAuthorizationInfo {
            keygen_session_id,
            user_id: entry.ticket_id,
            competition_id: competition.id,
            entry_id: entry.id,
            contract_digest,
            amount_msat,
            automatic_lightning_address: policy.automatic_lightning_address,
            allow_invoice_fallback: policy.allow_invoice_fallback && !closed && !paid_out,
            status: tell_status(claim, closed, AWAITING_PAYOUT),
        },
    )
}

/// The longest that a winner's signature on an invoice is good for, in seconds.
pub const LONGEST_AUTHORIZATION: u64 = 600;

/// Until when a winner's signature on an invoice may be good that is given now.
pub open spec fn latest_authorization(now: u64) -> int {
    if now + LONGEST_AUTHORIZATION > u64::MAX {
        u64::MAX as int
    } else {
        now + LONGEST_AUTHORIZATION
    }
}

/// Why a winner's own invoice is refused, if so.
pub open spec fn fallback_fault(
    info: PayoutAuthorizationInfo,
    competition: Competition,
    invoice_is_owed: bool,
    expires_at: u64,
    now: u64,
    has_entry: bool,
    signature_holds: bool,
) -> Option<PolicyError> {
    if !info.allow_invoice_fallback {
        Some(PolicyError::NoFallback)
    } else if settles_on_chain(competition) {
        Some(PolicyError::OnChain)
    } else if !invoice_is_owed {
        Some(PolicyError::InvalidInvoice)
    } else if expires_at > latest_authorization(now) {
        Some(PolicyError::AuthorizedTooLong)
    } else if !has_entry {
        Some(PolicyError::EntryNotFound)
    } else if !signature_holds {
        Some(PolicyError::NotSigned)
    } else {
        None
    }
}

/// Check a winner's own invoice: they may send one, the pot is not being paid out on-chain, the
/// invoice asks for what is owed, and they signed for it, for no longer than ten minutes.
pub fn submit_invoice_fallback(
    info: &PayoutAuthorizationInfo,
    competition: &Competition,
    invoice_is_owed: bool,
    expires_at: u64,
    now: u64,
    has_entry: bool,
    signature_holds: bool,
) -> (checked: Result<(), PolicyError>)
    ensures
        match fallback_fault(
            *info,
            *competition,
            invoice_is_owed,
            expires_at,
            now,
            has_entry,
            signature_holds,
        ) {
            Some(error) => checked == Err::<(), PolicyError>(error),
            None => checked is Ok,
        },
{
    if !info.allow_invoice_fallback {
        return Err(PolicyError::NoFallback);
    }
    if is_settling_on_chain(competition) {
        return Err(PolicyError::OnChain);
    }
    if !invoice_is_owed {
        return Err(PolicyError::InvalidInvoice);
    }
    let latest: u64 = match now.checked_add(LONGEST_AUTHORIZATION) {
        Some(latest) => latest,
        None => u64::MAX,
    };
    if expires_at > latest {
        return Err(PolicyError::AuthorizedTooLong);
    }
    if !has_entry {
        return Err(PolicyError::EntryNotFound);
    }
    if !signature_holds {
        return Err(PolicyError::NotSigned);
    }
    Ok(())
}

/// What a winner signs an invoice of their own for.
#[derive(Debug)]
pub struct InvoiceAuthorization {
    pub keygen_session_id: String,
    pub user_id: Uuid,
    pub claim_id: Uuid,
    pub competition_id: Uuid,
    pub entry_id: Uuid,
    pub contract_digest: String,
    pub invoice_digest: String,
    pub amount_msat: u64,
    pub expires_at: u64,
}

/// What a winner's signature on an invoice has to be for: their entry, the contract and what they
/// are owed by it; the claim and the expiry are their own.
pub fn expected_authorization(
    info: &PayoutAuthorizationInfo,
    claim_id: Uuid,
    expires_at: u64,
    invoice_digest: String,
) -> (expected: InvoiceAuthorization)
    ensures
        expected == (InvoiceAuthorization {
            keygen_session_id: info.keygen_session_id,
            user_id: info.user_id,
            claim_id,
            competition_id: info.competition_id,
            entry_id: info.entry_id,
            contract_digest: info.contract_digest,
            invoice_digest,
            amount_msat: info.amount_msat,
            expires_at,
        }),
{
    InvoiceAuthorization {
        keygen_session_id: info.keygen_session_id.clone(),
        user_id: info.user_id,
        claim_id,
        competition_id: info.competition_id,
        entry_id: info.entry_id,
        contract_digest: info.contract_digest.clone(),
        invoice_digest,
        amount_msat: info.amount_msat,
        expires_at,
    }
}

/// A winning entry's payout, as a player's account shows it.
#[derive(Debug)]
pub struct EligiblePayout {
    pub competition_id: Uuid,
    pub entry_id: Uuid,
    pub status: String,
    pub amount_sats: u64,
    /// The Lightning address that the entry is paid to automatically.
    pub automatic_lightning_address: Option<String>,
    /// The winner may still send an invoice of their own.
    pub allow_invoice_fallback: bool,
    /// The payout is held in escrow by Keymeld.
    pub escrow_enabled: bool,
}

/// What a winner is told while there is no claim.
pub const QUEUED: &'static str = "Queued automatically";

/// What a winner is told while there is no claim.
pub const AWAITING_INVOICE: &'static str = "Awaiting invoice";

/// The entry's payout is shown: it won a competition whose outcome is on-chain, and it has not been
/// paid out in the old way.
pub open spec fn is_shown(competition: Competition, entry: UserEntry, policy: Option<PayoutPolicy>) -> bool {
    &&& !(entry.paid_out_at is Some && policy is None)
    &&& competition.attestation is Some
    &&& competition.outcome_broadcasted_at is Some
    &&& owed_to(competition, entry) is Ok
}

impl EligiblePayout {
    /// This shows how the entry's payout stands.
    pub open spec fn shows(
        self,
        competition: Competition,
        entry: UserEntry,
        policy: Option<PayoutPolicy>,
        window_closed: bool,
        claim: Option<ClaimStatus>,
    ) -> bool {
        let closed = window_closed || settles_on_chain(competition);
        let address = match policy {
            Some(policy) => policy.automatic_lightning_address,
            None => None,
        };
        &&& self.competition_id == competition.id
        &&& self.entry_id == entry.id
        &&& self.amount_sats == owed_to(competition, entry)->Ok_0
        &&& self.automatic_lightning_address == address
        &&& self.escrow_enabled == (policy is Some)
        &&& self.allow_invoice_fallback == ((policy matches Some(policy)
            ==> policy.allow_invoice_fallback) && !closed && entry.paid_out_at is None)
        &&& self.status@ == told_status(
            claim,
            closed,
            if address is Some {
                QUEUED@
            } else {
                AWAITING_INVOICE@
            },
        )
    }
}

/// The payout of an entry as its player's account shows it, if it is shown. `competition` is the
/// entry's, where there is one.
pub fn eligible_payout(
    competition: Option<&Competition>,
    entry: &UserEntry,
    policy: Option<PayoutPolicy>,
    window_closed: bool,
    claim: Option<ClaimStatus>,
) -> (shown: Option<EligiblePayout>)
    ensures
        match competition {
            None => shown is None,
            Some(competition) => if !is_shown(*competition, *entry, policy) {
                shown is None
            } else {
                shown matches Some(payout) && payout.shows(
                    *competition,
                    *entry,
                    policy,
                    window_closed,
                    claim,
                )
            },
        },
{
    let competition = competition?;
    if entry.paid_out_at.is_some() && policy.is_none() {
        return None;
    }
    if competition.attestation.is_none() || competition.outcome_broadcasted_at.is_none() {
        return None;
    }
    let amount_sats: u64 = match owed_sats(competition, entry) {
        Ok(sats) => sats,
        Err(_) => {
            return None;
        },
    };
    let closed: bool = window_closed || is_settling_on_chain(competition);
    let escrow_enabled: bool = policy.is_some();
    let (automatic_lightning_address, fallback) = match policy {
        Some(policy) => (policy.automatic_lightning_address, policy.allow_invoice_fallback),
        None => (None, true),
    };
    let status = if automatic_lightning_address.is_some() {
        tell_status(claim, closed, QUEUED)
    } else {
        tell_status(claim, closed, AWAITING_INVOICE)
    };
    Some(
        EligiblePayout {
            competition_id: competition.id,
            entry_id: entry.id,
            status,
            amount_sats,
            automatic_lightning_address,
            allow_invoice_fallback: fallback && !closed && entry.paid_out_at.is_none(),
            escrow_enabled,
        },
    )
}

/// Once a competition's outcome is on-chain, what a player is told of a payout is shown in their
/// account too, and the two agree: the amount that they sign for is the amount shown, in thousandths
/// of a satoshi, and both name one address and let an invoice in together.
pub proof fn shown_amounts_are_what_is_signed_for(
    competition: Competition,
    entry: UserEntry,
    owner: Seq<char>,
    policy: PayoutPolicy,
    window_closed: bool,
    claim: Option<ClaimStatus>,
    contract_digest: Option<String>,
    info: PayoutAuthorizationInfo,
    payout: EligiblePayout,
)
    requires
        info_fault(Some(entry), owner, competition, Some(policy), contract_digest) is None,
        competition.attestation is Some,
        competition.outcome_broadcasted_at is Some,
        info.tells(competition, entry, policy, window_closed, claim),
        payout.shows(competition, entry, Some(policy), window_closed, claim),
    ensures
        is_shown(competition, entry, Some(policy)),
        info.amount_msat == payout.amount_sats * 1000,
        info.entry_id == payout.entry_id,
        info.competition_id == payout.competition_id,
        info.automatic_lightning_address == payout.automatic_lightning_address,
        info.allow_invoice_fallback == payout.allow_invoice_fallback,
{
}

} // verus!
