//! Tickets: what a player pays to enter a competition, and how a reserved ticket is offered to
//! them.

use crate::clock::{is_datetime, Timestamp, SECOND};
use crate::competition::{Competition, CompetitionState, Uuid};
use crate::contracting::reservation_deadline;
use crate::encoding::{hex_bytes, hex_decode, hex_encode, hex_text, is_hex, sha256, sha256_digest};
use crate::entries::Ticket;
use crate::lifecycle::Coordinator;
use vstd::prelude::*;

verus! {

/// How long an unpaid reservation stands before another player may take it over: ten minutes.
pub const RESERVATION: i128 = 600_000_000_000;

/// How much longer than the entries stay open an invoice is good for, so that the contract can be
/// signed and funded, in seconds.
pub const SIGNING_BUFFER: i64 = 600;

/// The least that an invoice is good for, in seconds.
pub const SHORTEST_INVOICE: i64 = 900;

/// Why a player's request is refused.
#[derive(Clone, Copy, PartialEq, Eq, Structural, Debug)]
pub enum RequestError {
    /// The competition takes no more entries.
    NotAccepting,
    /// Every place of the competition is taken.
    CompetitionFull,
    /// Every ticket of the competition is reserved.
    NoAvailableTickets,
    TicketNotFound,
    /// The ticket is for another competition.
    OtherCompetition,
    /// The ticket is not reserved for this player.
    NotReservedByUser,
    /// The ticket's preimage cannot be read.
    InvalidPreimage,
    /// The ticket's escrow transaction could not be made.
    EscrowFailed,
    /// The ticket's invoice could not be made.
    InvoiceFailed,
    /// The ticket was reserved anew in the meantime.
    ReservationChanged,
    /// The competition has no Keymeld session.
    NoKeymeldSession,
    /// Keymeld could not be asked, or refused.
    KeymeldFailed,
    /// The key that the player registers is no point.
    InvalidKey,
    /// What the player registers under names another ticket or another key.
    OtherContext,
    /// Keymeld's session does not take the registration.
    InvalidContext,
    /// Another registration was sent for the ticket, and it is paid.
    RegistrationFixed,
    /// The competition has so many paid entries that it cannot be deleted.
    HasPaidEntries(u64),
    /// More places win than a payout is defined for.
    TooManyWinners(usize),
    /// Winners are paid automatically, and Keymeld cannot serve so many players and winning places.
    BeyondCapacity { players: usize, places: usize },
}

/// How a ticket stands.
#[derive(Clone, Copy, PartialEq, Eq, Structural, Debug)]
pub enum TicketStatus {
    Created,
    Reserved,
    Expired,
    Paid,
    Settled,
    Used,
}

impl Ticket {
    /// The ticket is reserved, and long enough ago that it may be taken over.
    pub open spec fn is_stale(self, now: int) -> bool {
        self.reserved_at matches Some(at) && at + RESERVATION < now
    }

    /// How the ticket stands at the time `now`.
    pub open spec fn status_at(self, now: int) -> TicketStatus {
        if self.entry_id is Some {
            TicketStatus::Used
        } else if self.settled_at is Some {
            TicketStatus::Settled
        } else if self.paid_at is Some {
            TicketStatus::Paid
        } else if self.is_stale(now) {
            TicketStatus::Expired
        } else if self.reserved_at is Some {
            TicketStatus::Reserved
        } else {
            TicketStatus::Created
        }
    }

    /// How the ticket stands at the time `now`. What it was last used for tells.
    pub fn get_status(&self, now: Timestamp) -> (status: TicketStatus)
        requires
            is_datetime(now as int),
        ensures
            status == self.status_at(now as int),
    {
        if self.entry_id.is_some() {
            return TicketStatus::Used;
        }
        if self.settled_at.is_some() {
            return TicketStatus::Settled;
        }
        if self.paid_at.is_some() {
            return TicketStatus::Paid;
        }
        match self.reserved_at {
            Some(at) => if at < now - RESERVATION {
                TicketStatus::Expired
            } else {
                TicketStatus::Reserved
            },
            None => TicketStatus::Created,
        }
    }

    /// The ticket is for the competition, and reserved for the player.
    pub open spec fn belongs(self, user_pubkey: Seq<char>, competition_id: Uuid) -> Result<
        (),
        RequestError,
    > {
        if self.competition_id != competition_id {
            Err(RequestError::OtherCompetition)
        } else if !self.reserved_for(user_pubkey) {
            Err(RequestError::NotReservedByUser)
        } else {
            Ok(())
        }
    }

    /// The ticket is reserved for the player.
    pub open spec fn reserved_for(self, user_pubkey: Seq<char>) -> bool {
        self.reserved_by matches Some(holder) && holder@ == user_pubkey
    }

    /// The ticket is reserved for the player.
    pub fn is_reserved_for(&self, user_pubkey: &String) -> (reserved: bool)
        ensures
            reserved == self.reserved_for(user_pubkey@),
    {
        match &self.reserved_by {
            Some(holder) => *holder == *user_pubkey,
            None => false,
        }
    }

    /// Check that the ticket is for the competition, and reserved for the player.
    pub fn check_holder(&self, user_pubkey: &String, competition_id: Uuid) -> (checked: Result<
        (),
        RequestError,
    >)
        ensures
            checked == self.belongs(user_pubkey@, competition_id),
    {
        if self.competition_id != competition_id {
            return Err(RequestError::OtherCompetition);
        }
        if !self.is_reserved_for(user_pubkey) {
            return Err(RequestError::NotReservedByUser);
        }
        Ok(())
    }
}

/// How a player's own ticket stands. `ticket` is the one with the id that they asked for.
pub fn get_ticket_status(
    ticket: &Option<Ticket>,
    user_pubkey: &String,
    competition_id: Uuid,
    now: Timestamp,
) -> (status: Result<TicketStatus, RequestError>)
    requires
        is_datetime(now as int),
    ensures
        status == match *ticket {
            None => Err(RequestError::TicketNotFound),
            Some(ticket) => match ticket.belongs(user_pubkey@, competition_id) {
                Err(error) => Err(error),
                Ok(_) => Ok(ticket.status_at(now as int)),
            },
        },
{
    let ticket = match ticket {
        Some(ticket) => ticket,
        None => {
            return Err(RequestError::TicketNotFound);
        },
    };
    match ticket.check_holder(user_pubkey, competition_id) {
        Err(error) => Err(error),
        Ok(_) => Ok(ticket.get_status(now)),
    }
}

/// A competition is deleted only while none of its entries is paid.
pub fn check_deletion(competition: &Competition) -> (checked: Result<(), RequestError>)
    ensures
        checked == if competition.total_paid_entries > 0 {
            Err::<(), RequestError>(RequestError::HasPaidEntries(competition.total_paid_entries))
        } else {
            Ok::<(), RequestError>(())
        },
{
    if competition.total_paid_entries > 0 {
        return Err(RequestError::HasPaidEntries(competition.total_paid_entries));
    }
    Ok(())
}

/// The most places that can win, for which a payout is defined.
pub const MOST_WINNERS: usize = 5;

impl Coordinator {
    /// A competition is created only where a payout is defined for its winners and, if they are paid
    /// automatically, Keymeld can serve it. `is_served` is whether it can.
    pub fn check_creation(&self, competition: &Competition, is_served: bool) -> (checked: Result<
        (),
        RequestError,
    >)
        ensures
            ({
                let players = competition.event_submission.total_allowed_entries;
                let places = competition.event_submission.number_of_places_win;
                checked == if places > MOST_WINNERS {
                    Err::<(), RequestError>(RequestError::TooManyWinners(places))
                } else if self.automatic_payouts && !is_served {
                    Err::<(), RequestError>(RequestError::BeyondCapacity { players, places })
                } else {
                    Ok::<(), RequestError>(())
                }
            }),
    {
        let players: usize = competition.event_submission.total_allowed_entries;
        let places: usize = competition.event_submission.number_of_places_win;
        if places > MOST_WINNERS {
            return Err(RequestError::TooManyWinners(places));
        }
        if self.automatic_payouts && !is_served {
            return Err(RequestError::BeyondCapacity { players, places });
        }
        Ok(())
    }
}

/// Whether a competition has a ticket to offer.
pub open spec fn open_for_tickets(competition: Competition) -> Result<(), RequestError> {
    if !(competition.state() is Created) {
        Err(RequestError::NotAccepting)
    } else if competition.full() {
        Err(RequestError::CompetitionFull)
    } else {
        Ok(())
    }
}

/// Check that a competition takes entries and has a place left, before a ticket is reserved.
pub fn check_open_for_tickets(competition: &Competition) -> (checked: Result<(), RequestError>)
    ensures
        checked == open_for_tickets(*competition),
{
    if !matches!(competition.get_state(), CompetitionState::Created) {
        return Err(RequestError::NotAccepting);
    }
    if competition.has_full_entries() {
        return Err(RequestError::CompetitionFull);
    }
    Ok(())
}

/// A reserved ticket that is being offered to its player: what it costs, and what has been made of
/// the offer so far.
#[derive(Debug)]
pub struct TicketRequest {
    pub ticket_id: Uuid,
    pub competition_id: Uuid,
    /// The hash of the ticket, as it was when it was reserved.
    pub ticket_hash: String,
    /// The hash that paying the ticket reveals the preimage of.
    pub payment_hash: Vec<u8>,
    /// What the player pays, in satoshis: the entry fee and the coordinator's.
    pub amount_sats: u64,
    /// When the entries close.
    pub closes_at: Timestamp,
    /// The escrow transaction in hexadecimal, once there is one.
    pub escrow_tx: Option<String>,
    /// The invoice, once there is one.
    pub payment_request: Option<String>,
    /// Keymeld holds the players' keys.
    pub keymeld: bool,
}

/// What is to be done next for an offer.
#[derive(Debug)]
pub enum TicketStep {
    /// Make the escrow transaction that locks the entry fee with the player's key and the payment
    /// hash, with its inputs reserved until the deadline.
    BuildEscrow { amount_sats: u64, deadline: u64 },
    /// Keep the escrow transaction with the ticket, while its hash is the same.
    StoreEscrow { escrow_tx: String },
    /// Make an invoice that is held until it is settled.
    AddInvoice {
        amount_sats: u64,
        expiry_seconds: u64,
        payment_hash: String,
        escrow_tx: String,
    },
    /// Keep the invoice with the ticket, while its hash is the same.
    StoreInvoice { payment_request: String, expires_at: Timestamp },
    /// Cancel the invoice to the hash, and refuse: the ticket was reserved anew.
    CancelInvoice { payment_hash: String },
    /// Ask Keymeld which enclave the player's key is registered with.
    AssignRegistration,
    /// Offer the ticket.
    Respond,
    /// Refuse, and release the reservation.
    Refuse(RequestError),
}

/// How long an invoice made at the time `now` is good for, in seconds.
pub open spec fn invoice_lifetime(closes_at: int, now: int) -> int {
    let open = (closes_at - now) / (SECOND as int) + SIGNING_BUFFER;
    if open > SHORTEST_INVOICE {
        open
    } else {
        SHORTEST_INVOICE as int
    }
}

/// How long an invoice made `now` is good for, in seconds: until the entries close and the contract
/// is signed and funded, but never for less than a quarter of an hour.
pub fn invoice_expiry_seconds(closes_at: Timestamp, now: Timestamp) -> (seconds: u64)
    requires
        is_datetime(closes_at as int),
        is_datetime(now as int),
    ensures
        seconds == invoice_lifetime(closes_at as int, now as int),
{
    let open: i128 = closes_at - now;
    if open < 0 {
        return SHORTEST_INVOICE as u64;
    }
    let seconds: i128 = open / SECOND + SIGNING_BUFFER as i128;
    if seconds > SHORTEST_INVOICE as i128 {
        seconds as u64
    } else {
        SHORTEST_INVOICE as u64
    }
}

/// The offer made so far, with its bytes and text as sequences.
pub struct TicketRequestView {
    pub ticket_id: Uuid,
    pub competition_id: Uuid,
    pub ticket_hash: Seq<char>,
    pub payment_hash: Seq<u8>,
    pub amount_sats: u64,
    pub closes_at: Timestamp,
    pub escrow_tx: Option<Seq<char>>,
    pub payment_request: Option<Seq<char>>,
    pub keymeld: bool,
}

/// What is to be done next, with its text as sequences.
pub enum TicketStepView {
    BuildEscrow { amount_sats: u64, deadline: u64 },
    StoreEscrow { escrow_tx: Seq<char> },
    AddInvoice {
        amount_sats: u64,
        expiry_seconds: u64,
        payment_hash: Seq<char>,
        escrow_tx: Seq<char>,
    },
    StoreInvoice { payment_request: Seq<char>, expires_at: Timestamp },
    CancelInvoice { payment_hash: Seq<char> },
    AssignRegistration,
    Respond,
    Refuse(RequestError),
}

impl View for TicketRequest {
    type V = TicketRequestView;

    open spec fn view(&self) -> TicketRequestView {
        TicketRequestView {
            ticket_id: self.ticket_id,
            competition_id: self.competition_id,
            ticket_hash: self.ticket_hash@,
            payment_hash: self.payment_hash@,
            amount_sats: self.amount_sats,
            closes_at: self.closes_at,
            escrow_tx: crate::encoding::text_view(self.escrow_tx),
            payment_request: crate::encoding::text_view(self.payment_request),
            keymeld: self.keymeld,
        }
    }
}

impl View for TicketStep {
    type V = TicketStepView;

    open spec fn view(&self) -> TicketStepView {
        match *self {
            TicketStep::BuildEscrow { amount_sats, deadline } => TicketStepView::BuildEscrow {
                amount_sats,
                deadline,
            },
            TicketStep::StoreEscrow { escrow_tx } => TicketStepView::StoreEscrow {
                escrow_tx: escrow_tx@,
            },
            TicketStep::AddInvoice { amount_sats, expiry_seconds, payment_hash, escrow_tx } => {
                TicketStepView::AddInvoice {
                    amount_sats,
                    expiry_seconds,
                    payment_hash: payment_hash@,
                    escrow_tx: escrow_tx@,
                }
            },
            TicketStep::StoreInvoice { payment_request, expires_at } => {
                TicketStepView::StoreInvoice { payment_request: payment_request@, expires_at }
            },
            TicketStep::CancelInvoice { payment_hash } => TicketStepView::CancelInvoice {
                payment_hash: payment_hash@,
            },
            TicketStep::AssignRegistration => TicketStepView::AssignRegistration,
            TicketStep::Respond => TicketStepView::Respond,
            TicketStep::Refuse(error) => TicketStepView::Refuse(error),
        }
    }
}

impl TicketRequestView {
    /// The step after the ticket has its invoice.
    pub open spec fn after_invoice(self) -> TicketStepView {
        if self.keymeld {
            TicketStepView::AssignRegistration
        } else {
            TicketStepView::Respond
        }
    }

    /// The step after the ticket has its escrow, or needs none.
    pub open spec fn after_escrow(self, now: int) -> TicketStepView {
        if self.payment_request is Some {
            self.after_invoice()
        } else {
            TicketStepView::AddInvoice {
                amount_sats: self.amount_sats,
                expiry_seconds: invoice_lifetime(self.closes_at as int, now) as u64,
                payment_hash: hex_text(self.payment_hash),
                escrow_tx: match self.escrow_tx {
                    Some(escrow_tx) => escrow_tx,
                    None => Seq::empty(),
                },
            }
        }
    }
}

impl Coordinator {
    /// The offer of a reserved ticket as it starts out, and its first step.
    pub open spec fn offer(
        self,
        ticket: Ticket,
        competition: Competition,
        coordinator_fee: u64,
        now: int,
    ) -> Result<(TicketRequestView, TicketStepView), RequestError> {
        if !is_hex(ticket.encrypted_preimage@) {
            Err(RequestError::InvalidPreimage)
        } else {
            let request = TicketRequestView {
                ticket_id: ticket.id,
                competition_id: ticket.competition_id,
                ticket_hash: ticket.hash@,
                payment_hash: sha256_digest(hex_bytes(ticket.encrypted_preimage@)),
                amount_sats: (competition.event_submission.entry_fee + coordinator_fee) as u64,
                closes_at: competition.event_submission.start_observation_date,
                escrow_tx: None,
                payment_request: crate::encoding::text_view(ticket.payment_request),
                keymeld: self.keymeld_enabled,
            };
            Ok(
                (
                    request,
                    if self.escrow_enabled {
                        TicketStepView::BuildEscrow {
                            amount_sats: competition.event_submission.entry_fee as u64,
                            deadline: reservation_deadline(competition, now) as u64,
                        }
                    } else {
                        request.after_escrow(now)
                    },
                ),
            )
        }
    }

    /// Start to offer a reserved ticket. The player pays the entry fee and `coordinator_fee`.
    pub fn create_ticket_response(
        &self,
        ticket: &Ticket,
        competition: &Competition,
        coordinator_fee: u64,
        now: Timestamp,
    ) -> (offered: Result<(TicketRequest, TicketStep), RequestError>)
        requires
            is_datetime(now as int),
            is_datetime(competition.event_submission.signing_date as int),
            is_datetime(competition.event_submission.start_observation_date as int),
            is_datetime(competition.event_submission.end_observation_date as int),
            competition.event_submission.entry_fee + coordinator_fee <= u64::MAX,
        ensures
            match self.offer(*ticket, *competition, coordinator_fee, now as int) {
                Ok((request, step)) => offered matches Ok(made) && made.0@ == request && made.1@
                    == step,
                Err(error) => offered matches Err(told) && told == error,
            },
    {
        let preimage = match hex_decode(ticket.encrypted_preimage.as_str()) {
            Some(preimage) => preimage,
            None => {
                return Err(RequestError::InvalidPreimage);
            },
        };
        let payment_request = match &ticket.payment_request {
            Some(payment_request) => Some(payment_request.clone()),
            None => None,
        };
        let entry_fee: u64 = competition.event_submission.entry_fee as u64;
        let request = TicketRequest {
            ticket_id: ticket.id,
            competition_id: ticket.competition_id,
            ticket_hash: ticket.hash.clone(),
            payment_hash: sha256(&preimage),
            amount_sats: entry_fee + coordinator_fee,
            closes_at: competition.event_submission.start_observation_date,
            escrow_tx: None,
            payment_request,
            keymeld: self.keymeld_enabled,
        };
        if self.escrow_enabled {
            match competition.funding_reservation_deadline(now) {
                Ok(deadline) => Ok(
                    (request, TicketStep::BuildEscrow { amount_sats: entry_fee, deadline }),
                ),
                Err(_) => Err(RequestError::EscrowFailed),
            }
        } else {
            let step = request.after_escrow_step(now);
            Ok((request, step))
        }
    }
}

impl TicketRequest {
    /// The step after the ticket has its invoice.
    fn after_invoice_step(&self) -> (step: TicketStep)
        ensures
            step@ == self@.after_invoice(),
    {
        if self.keymeld {
            TicketStep::AssignRegistration
        } else {
            TicketStep::Respond
        }
    }

    /// The step after the ticket has its escrow, or needs none. An invoice that the ticket has is
    /// used again: a hash that was cancelled cannot be paid to once more.
    fn after_escrow_step(&self, now: Timestamp) -> (step: TicketStep)
        requires
            is_datetime(now as int),
            is_datetime(self.closes_at as int),
        ensures
            step@ == self@.after_escrow(now as int),
    {
        if self.payment_request.is_some() {
            return self.after_invoice_step();
        }
        let escrow_tx = match &self.escrow_tx {
            Some(escrow_tx) => escrow_tx.clone(),
            None => {
                let none = String::new();
                assert(none@ =~= Seq::empty());
                none
            },
        };
        TicketStep::AddInvoice {
            amount_sats: self.amount_sats,
            expiry_seconds: invoice_expiry_seconds(self.closes_at, now),
            payment_hash: hex_encode(&self.payment_hash),
            escrow_tx,
        }
    }

    /// The escrow transaction was made, or could not be; `raw` is its consensus encoding.
    pub fn escrow_was_built(&self, raw: &Option<Vec<u8>>) -> (step: TicketStep)
        ensures
            step@ == match *raw {
                Some(raw) => TicketStepView::StoreEscrow { escrow_tx: hex_text(raw@) },
                None => TicketStepView::Refuse(RequestError::EscrowFailed),
            },
    {
        match raw {
            Some(raw) => TicketStep::StoreEscrow { escrow_tx: hex_encode(raw) },
            None => TicketStep::Refuse(RequestError::EscrowFailed),
        }
    }

    /// The escrow transaction was kept with the ticket; `stored` is false where the ticket was
    /// reserved anew before.
    pub fn escrow_was_stored(&mut self, escrow_tx: String, stored: bool, now: Timestamp) -> (step:
        TicketStep)
        requires
            is_datetime(now as int),
            is_datetime(old(self).closes_at as int),
        ensures
            stored ==> final(self)@ == (TicketRequestView {
                escrow_tx: Some(escrow_tx@),
                ..old(self)@
            }) && step@ == final(self)@.after_escrow(now as int),
            !stored ==> *final(self) == *old(self) && step@ == TicketStepView::Refuse(
                RequestError::ReservationChanged,
            ),
    {
        if !stored {
            return TicketStep::Refuse(RequestError::ReservationChanged);
        }
        self.escrow_tx = Some(escrow_tx);
        self.after_escrow_step(now)
    }

    /// The invoice was made, or could not be. It expires so many seconds from `now`.
    pub fn invoice_was_added(
        &self,
        payment_request: Option<String>,
        expiry_seconds: u64,
        now: Timestamp,
    ) -> (step: TicketStep)
        requires
            is_datetime(now as int),
            is_datetime(now + expiry_seconds * SECOND),
        ensures
            step@ == match payment_request {
                Some(payment_request) => TicketStepView::StoreInvoice {
                    payment_request: payment_request@,
                    expires_at: (now + expiry_seconds * SECOND) as i128,
                },
                None => TicketStepView::Refuse(RequestError::InvoiceFailed),
            },
    {
        match payment_request {
            Some(payment_request) => {
                assert(expiry_seconds * SECOND <= u64::MAX * SECOND) by (nonlinear_arith)
                    requires
                        expiry_seconds <= u64::MAX,
                        SECOND == 1_000_000_000,
                ;
                let lasts: i128 = expiry_seconds as i128 * SECOND;
                TicketStep::StoreInvoice { payment_request, expires_at: now + lasts }
            },
            None => TicketStep::Refuse(RequestError::InvoiceFailed),
        }
    }

    /// The invoice was kept with the ticket; `stored` is false where the ticket was reserved anew
    /// before, and then the invoice that was just made is cancelled.
    pub fn invoice_was_stored(&mut self, payment_request: String, stored: bool) -> (step: TicketStep)
        ensures
            stored ==> final(self)@ == (TicketRequestView {
                payment_request: Some(payment_request@),
                ..old(self)@
            }) && step@ == final(self)@.after_invoice(),
            !stored ==> *final(self) == *old(self) && step@ == (TicketStepView::CancelInvoice {
                payment_hash: old(self)@.ticket_hash,
            }),
    {
        if !stored {
            return TicketStep::CancelInvoice { payment_hash: self.ticket_hash.clone() };
        }
        self.payment_request = Some(payment_request);
        self.after_invoice_step()
    }

    /// The invoice of a ticket that was reserved anew was cancelled, whether or not it could be.
    pub fn invoice_was_cancelled(&self) -> (step: TicketStep)
        ensures
            step@ == TicketStepView::Refuse(RequestError::ReservationChanged),
    {
        TicketStep::Refuse(RequestError::ReservationChanged)
    }

    /// Keymeld named the session and the enclave for the player's key, or did not.
    pub fn registration_was_assigned(&self, assigned: Result<(), RequestError>) -> (step: TicketStep)
        ensures
            step@ == match assigned {
                Ok(_) => TicketStepView::Respond,
                Err(error) => TicketStepView::Refuse(error),
            },
    {
        match assigned {
            Ok(_) => TicketStep::Respond,
            Err(error) => TicketStep::Refuse(error),
        }
    }
}

/// What Keymeld names for a player: the session, and the enclave that their key is sealed to.
#[derive(Debug, PartialEq, Eq)]
pub struct RegistrationAssignment {
    pub session_id: String,
    pub enclave_public_key: String,
    /// The whole assignment, in the text that the player's side registers with.
    pub text: String,
}

/// A ticket as it is offered to its player.
#[derive(Debug)]
pub struct TicketResponse {
    pub ticket_id: Uuid,
    pub payment_request: String,
    pub escrow_tx: Option<String>,
    /// In hexadecimal.
    pub payment_hash: String,
    pub amount_sats: u64,
    pub keymeld_user_id: Uuid,
    pub keymeld_gateway_url: Option<String>,
    pub keymeld_session_id: Option<String>,
    pub keymeld_enclave_public_key: Option<String>,
    pub keymeld_registration: Option<RegistrationAssignment>,
}

/// Offer a ticket that has its invoice.
pub fn ticket_response(
    request: TicketRequest,
    keymeld_gateway_url: Option<String>,
    assignment: Option<RegistrationAssignment>,
) -> (response: TicketResponse)
    requires
        request.payment_request is Some,
    ensures
        response.ticket_id == request.ticket_id,
        response.keymeld_user_id == request.ticket_id,
        Some(response.payment_request@) == request@.payment_request,
        response.escrow_tx == request.escrow_tx,
        response.payment_hash@ == hex_text(request.payment_hash@),
        response.amount_sats == request.amount_sats,
        response.keymeld_gateway_url == keymeld_gateway_url,
        match assignment {
            Some(assignment) => response.keymeld_session_id == Some(assignment.session_id)
                && response.keymeld_enclave_public_key == Some(assignment.enclave_public_key),
            None => response.keymeld_session_id is None && response.keymeld_enclave_public_key
                is None,
        },
        response.keymeld_registration == assignment,
{
    let payment_hash = hex_encode(&request.payment_hash);
    let (keymeld_session_id, keymeld_enclave_public_key) = match &assignment {
        Some(assignment) => (
            Some(assignment.session_id.clone()),
            Some(assignment.enclave_public_key.clone()),
        ),
        None => (None, None),
    };
    let payment_request = request.payment_request.unwrap();
    TicketResponse {
        ticket_id: request.ticket_id,
        payment_request,
        escrow_tx: request.escrow_tx,
        payment_hash,
        amount_sats: request.amount_sats,
        keymeld_user_id: request.ticket_id,
        keymeld_gateway_url,
        keymeld_session_id,
        keymeld_enclave_public_key,
        keymeld_registration: assignment,
    }
}

/// A ticket stands in one way at a time, and a stale reservation is the only one that lapses: the
/// status of a ticket that is paid for, settled or used is the same at every later time, and so is
/// that of a reservation that has lapsed.
pub proof fn only_reservations_lapse(ticket: Ticket, now: int, later: int)
    requires
        now <= later,
    ensures
        ticket.status_at(now) != ticket.status_at(later) ==> ticket.status_at(now) is Reserved
            && ticket.status_at(later) is Expired,
{
}

/// Whatever is kept with a ticket by one offer, a later offer of the same reservation pays to the
/// same hash, costs the same and uses the invoice again.
pub proof fn a_repeated_offer_is_the_same(
    coordinator: Coordinator,
    ticket: Ticket,
    again: Ticket,
    competition: Competition,
    coordinator_fee: u64,
    now: int,
    later: int,
)
    requires
        coordinator.offer(ticket, competition, coordinator_fee, now) is Ok,
        again.id == ticket.id,
        again.encrypted_preimage@ == ticket.encrypted_preimage@,
        again.payment_request is Some,
    ensures
        coordinator.offer(again, competition, coordinator_fee, later) matches Ok((request, step))
            && request.payment_hash == coordinator.offer(
            ticket,
            competition,
            coordinator_fee,
            now,
        )->Ok_0.0.payment_hash && request.amount_sats == coordinator.offer(
            ticket,
            competition,
            coordinator_fee,
            now,
        )->Ok_0.0.amount_sats && !(step is AddInvoice),
{
}

} // verus!
