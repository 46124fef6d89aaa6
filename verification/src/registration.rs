//! Registering a player's key with Keymeld before they pay, so that a ticket that was paid can be
//! refunded though it was never entered.

use crate::arkade::TicketArkEscrow;
use crate::clock::Timestamp;
use crate::competition::{Competition, Uuid};
use crate::contracting::ParticipantRegistrationData;
use crate::encoding::{hex_encode, hex_text, point_from_hex, point_of_hex};
use crate::entering::AddEntry;
use crate::entries::{RegistrationContext, Ticket};
use crate::refunds::{
    can_be_paid, is_owed_back, is_payable, is_refundable_ark_escrow, must_be_signed, needs_signing,
    TicketArkRefund,
};
use crate::tickets::RequestError;
use vstd::prelude::*;

verus! {

/// What a player registers their key with, for the entry that they will make with their ticket. Keys
/// are in hexadecimal.
#[derive(Debug)]
pub struct TicketRegistration {
    pub ephemeral_pubkey: String,
    /// The key's secret, sealed for the player's enclave.
    pub encrypted_keymeld_private_key: String,
    pub keymeld_auth_pubkey: String,
    pub keymeld_registration_context: RegistrationContext,
}

/// Why a player's registration is refused, if so: the ticket is not theirs, there is no session to
/// register in, or what it is registered under names another player or another key.
pub open spec fn registration_fault(
    ticket: Option<Ticket>,
    user_pubkey: Seq<char>,
    competition_id: Uuid,
    registration: TicketRegistration,
    has_session: bool,
) -> Option<RequestError> {
    match ticket {
        None => Some(RequestError::TicketNotFound),
        Some(ticket) => match ticket.belongs(user_pubkey, competition_id) {
            Err(error) => Some(error),
            Ok(_) => if !has_session {
                Some(RequestError::NoKeymeldSession)
            } else {
                match point_of_hex(registration.ephemeral_pubkey@) {
                    None => Some(RequestError::InvalidKey),
                    Some(point) => {
                        let context = registration.keymeld_registration_context;
                        if context.user_id != ticket.id || context.public_key@ != hex_text(point) {
                            Some(RequestError::OtherContext)
                        } else {
                            None
                        }
                    },
                }
            },
        },
    }
}

/// What a registration sends to Keymeld for a ticket: the ticket is the user, and the key is written
/// in its one encoding.
pub open spec fn registers_as(
    data: ParticipantRegistrationData,
    ticket_id: Uuid,
    registration: TicketRegistration,
) -> bool {
    &&& data.user_id == ticket_id
    &&& data.encrypted_private_key == registration.encrypted_keymeld_private_key
    &&& Some(data.public_key@) == match point_of_hex(registration.ephemeral_pubkey@) {
        Some(point) => Some(hex_text(point)),
        None => None,
    }
    &&& data.auth_pubkey == registration.keymeld_auth_pubkey
    &&& data.context == registration.keymeld_registration_context
}

/// Take a player's registration for their ticket, or tell why not. What is returned has still to be
/// checked against the session.
pub fn register_ticket(
    ticket: &Option<Ticket>,
    user_pubkey: &String,
    competition_id: Uuid,
    registration: &TicketRegistration,
    has_session: bool,
) -> (taken: Result<ParticipantRegistrationData, RequestError>)
    ensures
        match registration_fault(
            *ticket,
            user_pubkey@,
            competition_id,
            *registration,
            has_session,
        ) {
            Some(error) => taken matches Err(told) && told == error,
            None => taken matches Ok(data) && registers_as(data, ticket->0.id, *registration),
        },
{
    let ticket = match ticket {
        Some(ticket) => ticket,
        None => {
            return Err(RequestError::TicketNotFound);
        },
    };
    match ticket.check_holder(user_pubkey, competition_id) {
        Ok(_) => {},
        Err(error) => {
            return Err(error);
        },
    }
    if !has_session {
        return Err(RequestError::NoKeymeldSession);
    }
    match registered_data(ticket.id, registration) {
        None => Err(RequestError::InvalidKey),
        Some(data) => if data.context.user_id != ticket.id || data.context.public_key
            != data.public_key {
            Err(RequestError::OtherContext)
        } else {
            Ok(data)
        },
    }
}

/// What a registration sends to Keymeld for a ticket; nothing where its key is no point.
pub fn registered_data(ticket_id: Uuid, registration: &TicketRegistration) -> (data: Option<
    ParticipantRegistrationData,
>)
    ensures
        data is Some == point_of_hex(registration.ephemeral_pubkey@) is Some,
        data matches Some(data) ==> registers_as(data, ticket_id, *registration),
{
    let point = point_from_hex(registration.ephemeral_pubkey.as_str())?;
    Some(
        ParticipantRegistrationData {
            user_id: ticket_id,
            encrypted_private_key: registration.encrypted_keymeld_private_key.clone(),
            public_key: hex_encode(&point),
            auth_pubkey: registration.keymeld_auth_pubkey.clone(),
            context: registration.keymeld_registration_context.duplicate(),
        },
    )
}

/// An entry registers what its ticket was paid with, where that was registered before.
pub open spec fn registers_alike(entry: AddEntry, registered: Option<TicketRegistration>) -> bool {
    registered matches Some(kept) ==> {
        &&& entry.encrypted_keymeld_private_key matches Some(sealed) && sealed@
            == kept.encrypted_keymeld_private_key@
        &&& entry.keymeld_auth_pubkey matches Some(key) && key@ == kept.keymeld_auth_pubkey@
        &&& entry.keymeld_registration_context matches Some(context) && context@
            == kept.keymeld_registration_context@
    }
}

/// Whether an entry registers what its ticket was paid with.
pub fn is_registered_alike(entry: &AddEntry, registered: &Option<TicketRegistration>) -> (alike: bool)
    ensures
        alike == registers_alike(*entry, *registered),
{
    let kept = match registered {
        Some(kept) => kept,
        None => {
            return true;
        },
    };
    let same_key: bool = match &entry.encrypted_keymeld_private_key {
        Some(sealed) => *sealed == kept.encrypted_keymeld_private_key,
        None => false,
    };
    let same_auth: bool = match &entry.keymeld_auth_pubkey {
        Some(key) => *key == kept.keymeld_auth_pubkey,
        None => false,
    };
    let same_context: bool = match &entry.keymeld_registration_context {
        Some(context) => context.is_same(&kept.keymeld_registration_context),
        None => false,
    };
    same_key && same_auth && same_context
}

/// What came of a registration that a player sent for their ticket.
#[derive(Clone, Copy, PartialEq, Eq, Structural, Debug)]
pub enum RegistrationStored {
    Stored,
    /// It was stored before.
    Unchanged,
    /// Another was stored, and the ticket is paid: it stays.
    Fixed,
    /// The ticket is not reserved for this player under this hash.
    ReservationChanged,
}

/// A registration that a player sent for a ticket's reservation, before they paid.
#[derive(Debug)]
pub struct StoredRegistration {
    pub ticket_hash: String,
    pub registration_json: String,
}

/// What comes of a registration that a player sends for their ticket.
pub open spec fn registration_outcome(
    ticket: Ticket,
    stored: Option<StoredRegistration>,
    ticket_hash: Seq<char>,
    player: Seq<char>,
    registration_json: Seq<char>,
) -> RegistrationStored {
    if ticket.hash@ != ticket_hash || !ticket.reserved_for(player) {
        RegistrationStored::ReservationChanged
    } else {
        match stored {
            Some(kept) => if kept.ticket_hash@ != ticket_hash {
                if ticket.paid_at is Some {
                    RegistrationStored::Fixed
                } else {
                    RegistrationStored::Stored
                }
            } else if kept.registration_json@ == registration_json {
                RegistrationStored::Unchanged
            } else if ticket.paid_at is Some {
                RegistrationStored::Fixed
            } else {
                RegistrationStored::Stored
            },
            None => if ticket.paid_at is Some {
                RegistrationStored::Fixed
            } else {
                RegistrationStored::Stored
            },
        }
    }
}

/// Store the registration that a player sends for their ticket. It may be sent again until the
/// ticket is paid, and is fixed from then on.
pub fn store_ticket_registration(
    ticket: &Ticket,
    stored: &mut Option<StoredRegistration>,
    ticket_hash: String,
    player: &String,
    registration_json: String,
) -> (outcome: RegistrationStored)
    ensures
        outcome == registration_outcome(
            *ticket,
            *old(stored),
            ticket_hash@,
            player@,
            registration_json@,
        ),
        *final(stored) == if outcome is Stored {
            Some(StoredRegistration { ticket_hash, registration_json })
        } else {
            *old(stored)
        },
{
    if ticket.hash != ticket_hash || !ticket.is_reserved_for(player) {
        return RegistrationStored::ReservationChanged;
    }
    if let Some(kept) = &*stored {
        if kept.ticket_hash == ticket_hash && kept.registration_json == registration_json {
            return RegistrationStored::Unchanged;
        }
    }
    if ticket.paid_at.is_some() {
        return RegistrationStored::Fixed;
    }
    *stored = Some(StoredRegistration { ticket_hash, registration_json });
    RegistrationStored::Stored
}

/// The registration that is stored for a ticket, if it was sent for the hash that the ticket has now.
pub open spec fn registration_of(stored: Option<StoredRegistration>, ticket_hash: Seq<char>) -> Option<
    Seq<char>,
> {
    match stored {
        Some(kept) => if kept.ticket_hash@ == ticket_hash {
            Some(kept.registration_json@)
        } else {
            None
        },
        None => None,
    }
}

/// The registration that is stored for a ticket, if it was sent for the hash that the ticket has now.
pub fn ticket_registration<'a>(stored: &'a Option<StoredRegistration>, ticket_hash: &String) -> (found:
    Option<&'a String>)
    ensures
        match found {
            Some(found) => registration_of(*stored, ticket_hash@) == Some(found@),
            None => registration_of(*stored, ticket_hash@) is None,
        },
{
    match stored {
        Some(kept) => if kept.ticket_hash == *ticket_hash {
            Some(&kept.registration_json)
        } else {
            None
        },
        None => None,
    }
}

/// The registration that a refund is signed under: that of a ticket that was paid and never entered.
/// An entry registers itself, and an unpaid ticket has nothing to be given back.
pub fn registration_for_refund<'a>(ticket: &Ticket, stored: &'a Option<StoredRegistration>) -> (found:
    Option<&'a String>)
    ensures
        match found {
            Some(found) => ticket.paid_at is Some && ticket.entry_id is None && registration_of(
                *stored,
                ticket.hash@,
            ) == Some(found@),
            None => ticket.paid_at is None || ticket.entry_id is Some || registration_of(
                *stored,
                ticket.hash@,
            ) is None,
        },
{
    if ticket.paid_at.is_none() || ticket.entry_id.is_some() {
        return None;
    }
    ticket_registration(stored, &ticket.hash)
}

/// The competition has ended, well or not.
pub open spec fn has_ended(competition: Competition) -> bool {
    competition.cancelled_at is Some || competition.failed_at is Some || competition.completed_at
        is Some || competition.expiry_broadcasted_at is Some
}

/// What is registered for a ticket is still of use: the reservation that it was sent for stands, and
/// the competition has not ended, or the ticket can still be paid, or its refund is still to be
/// signed.
pub open spec fn is_of_use(
    stored: Option<StoredRegistration>,
    ticket: Ticket,
    competition: Competition,
    pool_funded: bool,
    escrow: Option<TicketArkEscrow>,
    refund: Option<TicketArkRefund>,
    now: Timestamp,
) -> bool {
    &&& registration_of(stored, ticket.hash@) is Some
    &&& ticket.reserved_at is Some
    &&& has_ended(competition) ==> can_be_paid(ticket, now) || (escrow matches Some(escrow)
        && is_owed_back(competition, pool_funded, ticket, escrow, refund) && must_be_signed(refund))
}

/// Whether what is registered for a ticket is still of use. What is not is deleted.
pub fn keeps_registration(
    stored: &Option<StoredRegistration>,
    ticket: &Ticket,
    competition: &Competition,
    pool_funded: bool,
    escrow: &Option<TicketArkEscrow>,
    refund: &Option<TicketArkRefund>,
    now: Timestamp,
) -> (keeps: bool)
    ensures
        keeps == is_of_use(*stored, *ticket, *competition, pool_funded, *escrow, *refund, now),
{
    if ticket_registration(stored, &ticket.hash).is_none() || ticket.reserved_at.is_none() {
        return false;
    }
    if !competition.skip_competition() || is_payable(ticket, now) {
        return true;
    }
    match escrow {
        Some(escrow) => is_refundable_ark_escrow(competition, pool_funded, ticket, escrow, refund)
            && needs_signing(refund),
        None => false,
    }
}

/// What a player registered for a paid ticket stays what it is, whoever sends what.
pub proof fn paid_registrations_are_fixed(
    ticket: Ticket,
    stored: Option<StoredRegistration>,
    ticket_hash: Seq<char>,
    player: Seq<char>,
    registration_json: Seq<char>,
)
    requires
        ticket.paid_at is Some,
    ensures
        !(registration_outcome(ticket, stored, ticket_hash, player, registration_json) is Stored),
{
}

/// What is registered for a ticket whose refund is still to be signed is kept, so that it can be; and
/// nothing is kept once a competition is completed.
pub proof fn registrations_last_as_long_as_they_are_needed(
    stored: Option<StoredRegistration>,
    ticket: Ticket,
    competition: Competition,
    pool_funded: bool,
    escrow: TicketArkEscrow,
    refund: Option<TicketArkRefund>,
    now: Timestamp,
)
    requires
        registration_of(stored, ticket.hash@) is Some,
        ticket.reserved_at is Some,
        ticket.paid_at is Some,
    ensures
        is_owed_back(competition, pool_funded, ticket, escrow, refund) && must_be_signed(refund)
            ==> is_of_use(stored, ticket, competition, pool_funded, Some(escrow), refund, now),
        competition.completed_at is Some && competition.cancelled_at is None
            && competition.failed_at is None ==> !is_of_use(
            stored,
            ticket,
            competition,
            pool_funded,
            Some(escrow),
            refund,
            now,
        ),
{
}

} // verus!
