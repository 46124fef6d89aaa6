//! Funding a competition from Arkade: the escrow that a ticket's buy-in waits in, and the swap that
//! pays it.

use crate::chain::{
    named_output, named_transaction, output_from_str, output_text, output_to_string, output_view,
    outputs_read_back, txid_from_str,
};
use crate::clock::{is_datetime, unix_timestamp, whole_seconds, Timestamp, SECOND};
use crate::competition::{Competition, Uuid};
use crate::contract::OutPoint;
use crate::encoding::{hex_bytes, hex_decode, hex_encode, hex_text, is_hex, text_view};
use crate::entries::Ticket;
use crate::lifecycle::Coordinator;
use crate::payouts::same_bytes;
use vstd::prelude::*;

verus! {

/// Why a ticket's escrow or its invoice cannot be made.
#[derive(Clone, Copy, PartialEq, Eq, Structural, Debug)]
pub enum ArkError {
    /// Arkade needs automatic payouts.
    NoAutomaticPayouts,
    /// The competition is funded from Arkade, which is not set up.
    NotConfigured,
    /// A point in time cannot be written as a locktime.
    TimestampOutOfRange,
    /// The ticket was reserved anew in the meantime.
    ReservationChanged,
    /// The ticket has no escrow yet.
    NoEscrow,
    /// The ticket's preimage cannot be read.
    InvalidPreimage,
    /// The swap's invoice does not pay to the ticket's hash.
    WrongHash,
    /// The swap expires at no point in time.
    InvalidExpiry,
}

/// How Arkade is used.
#[derive(Clone, Copy, PartialEq, Eq, Structural, Debug)]
pub struct ArkSettings {
    /// How long after the observations start an entry that was not funded can be refunded.
    pub refund_after_start_secs: u64,
    /// The most that a refund's swap may keep for paying the player.
    pub max_refund_fee_sats: u64,
}

impl Coordinator {
    /// Arkade may fund new competitions: it needs automatic payouts.
    pub fn with_ark(&self, ark: Option<ArkSettings>) -> (set: Result<Option<ArkSettings>, ArkError>)
        ensures
            set == if ark is Some && !self.automatic_payouts {
                Err::<Option<ArkSettings>, ArkError>(ArkError::NoAutomaticPayouts)
            } else {
                Ok::<Option<ArkSettings>, ArkError>(ark)
            },
    {
        if ark.is_some() && !self.automatic_payouts {
            return Err(ArkError::NoAutomaticPayouts);
        }
        Ok(ark)
    }
}

/// How Arkade is used for a competition, if it is funded from there.
pub fn ark_for(ark_funded: bool, ark: Option<ArkSettings>) -> (settings: Result<
    Option<ArkSettings>,
    ArkError,
>)
    ensures
        settings == if !ark_funded {
            Ok::<Option<ArkSettings>, ArkError>(None)
        } else if ark is None {
            Err::<Option<ArkSettings>, ArkError>(ArkError::NotConfigured)
        } else {
            Ok::<Option<ArkSettings>, ArkError>(ark)
        },
{
    if !ark_funded {
        return Ok(None);
    }
    if ark.is_none() {
        return Err(ArkError::NotConfigured);
    }
    Ok(ark)
}

/// A ticket's escrow, and the swap that funds it.
#[derive(Debug)]
pub struct TicketArkEscrow {
    pub ticket_id: Uuid,
    pub ticket_hash: String,
    /// The escrow's `TapTree` field of a PSBT, in hexadecimal.
    pub escrow_tap_tree: String,
    pub escrow_address: String,
    pub swap_id: Option<Uuid>,
    /// The output that funded it.
    pub vtxo_outpoint: Option<String>,
    pub vtxo_sats: Option<u64>,
    /// In UNIX seconds.
    pub funded_at: Option<i64>,
}

/// The batch that funded a competition's pool.
#[derive(Debug)]
pub struct ArkCommitment {
    pub batch_id: String,
    /// The commitment transaction, in hexadecimal.
    pub commitment_tx: String,
    pub funding_vout: u32,
}

/// From when an escrow can be refunded, in UNIX seconds: so long after the observations start, and
/// never after the contract expires.
pub open spec fn refund_opens(competition: Competition, settings: ArkSettings) -> int {
    let after_start = whole_seconds(competition.event_submission.start_observation_date as int)
        + settings.refund_after_start_secs;
    match competition.event_announcement {
        Some(event) => match event.expiry {
            Some(expiry) => if expiry < after_start {
                expiry as int
            } else {
                after_start
            },
            None => after_start,
        },
        None => after_start,
    }
}

/// How a ticket comes to its escrow.
#[derive(Clone, Copy, PartialEq, Eq, Structural, Debug)]
pub enum EscrowNeed {
    /// It has one for its reservation.
    Reuse,
    /// Build one that can be refunded from a time on, both in UNIX seconds.
    Build { refund_at: u32, now: u32 },
}

/// A ticket's escrow was fixed for its present hash.
pub open spec fn is_escrow_of(escrow: TicketArkEscrow, ticket: Ticket) -> bool {
    escrow.ticket_id == ticket.id && escrow.ticket_hash@ == ticket.hash@
}

/// How a ticket comes to its escrow. A repeated request for one reservation gets the same escrow.
pub fn ticket_ark_escrow_need(
    existing: &Option<TicketArkEscrow>,
    ticket: &Ticket,
    competition: &Competition,
    settings: ArkSettings,
    now: Timestamp,
) -> (need: Result<EscrowNeed, ArkError>)
    requires
        is_datetime(now as int),
        is_datetime(competition.event_submission.start_observation_date as int),
        settings.refund_after_start_secs <= i64::MAX - 253_402_300_799,
    ensures
        need == if *existing matches Some(escrow) && is_escrow_of(escrow, *ticket) {
            Ok::<EscrowNeed, ArkError>(EscrowNeed::Reuse)
        } else if 0 <= refund_opens(*competition, settings) <= u32::MAX && 0 <= whole_seconds(
            now as int,
        ) <= u32::MAX {
            Ok::<EscrowNeed, ArkError>(
                EscrowNeed::Build {
                    refund_at: refund_opens(*competition, settings) as u32,
                    now: whole_seconds(now as int) as u32,
                },
            )
        } else {
            Err::<EscrowNeed, ArkError>(ArkError::TimestampOutOfRange)
        },
{
    if let Some(escrow) = existing {
        if escrow.ticket_id == ticket.id && escrow.ticket_hash == ticket.hash {
            return Ok(EscrowNeed::Reuse);
        }
    }
    let mut refund_at: i64 = unix_timestamp(competition.event_submission.start_observation_date)
        + settings.refund_after_start_secs as i64;
    if let Some(event) = &competition.event_announcement {
        if let Some(expiry) = event.expiry {
            if (expiry as i64) < refund_at {
                refund_at = expiry as i64;
            }
        }
    }
    let present: i64 = unix_timestamp(now);
    if refund_at < 0 || refund_at > u32::MAX as i64 || present < 0 || present > u32::MAX as i64 {
        return Err(ArkError::TimestampOutOfRange);
    }
    Ok(EscrowNeed::Build { refund_at: refund_at as u32, now: present as u32 })
}

/// Fix a ticket's escrow for its present hash. One for an earlier hash is replaced, and one that was
/// fixed for the same hash stays.
pub fn store_ticket_ark_escrow(
    stored: &mut Option<TicketArkEscrow>,
    ticket_id: Uuid,
    ticket_hash: String,
    escrow_tap_tree: String,
    escrow_address: String,
)
    ensures
        *final(stored) == if *old(stored) matches Some(kept) && kept.ticket_hash@ == ticket_hash@ {
            *old(stored)
        } else {
            Some(
                TicketArkEscrow {
                    ticket_id,
                    ticket_hash,
                    escrow_tap_tree,
                    escrow_address,
                    swap_id: None,
                    vtxo_outpoint: None,
                    vtxo_sats: None,
                    funded_at: None,
                },
            )
        },
{
    if let Some(kept) = &*stored {
        if kept.ticket_hash == ticket_hash {
            return;
        }
    }
    *stored = Some(
        TicketArkEscrow {
            ticket_id,
            ticket_hash,
            escrow_tap_tree,
            escrow_address,
            swap_id: None,
            vtxo_outpoint: None,
            vtxo_sats: None,
            funded_at: None,
        },
    );
}

/// The escrow that is stored for a ticket, if it was fixed for the hash that the ticket has now.
pub fn ticket_ark_escrow<'a>(
    stored: &'a Option<TicketArkEscrow>,
    ticket_id: Uuid,
    ticket_hash: &String,
) -> (escrow: Option<&'a TicketArkEscrow>)
    ensures
        match *stored {
            Some(kept) => if kept.ticket_id == ticket_id && kept.ticket_hash@ == ticket_hash@ {
                escrow matches Some(found) && *found == kept
            } else {
                escrow is None
            },
            None => escrow is None,
        },
{
    match stored {
        Some(kept) => if kept.ticket_id == ticket_id && kept.ticket_hash == *ticket_hash {
            Some(kept)
        } else {
            None
        },
        None => None,
    }
}

/// Record the swap that is to fund a ticket's escrow. An escrow for another hash is left alone.
pub fn set_ticket_ark_swap(
    stored: &mut Option<TicketArkEscrow>,
    ticket_id: Uuid,
    ticket_hash: &String,
    swap_id: Uuid,
)
    ensures
        *final(stored) == match *old(stored) {
            Some(kept) => if kept.ticket_id == ticket_id && kept.ticket_hash@ == ticket_hash@ {
                Some(TicketArkEscrow { swap_id: Some(swap_id), ..kept })
            } else {
                *old(stored)
            },
            None => None,
        },
{
    if let Some(kept) = stored {
        if kept.ticket_id == ticket_id && kept.ticket_hash == *ticket_hash {
            kept.swap_id = Some(swap_id);
        }
    }
}

/// What a player agrees to of their escrow with their payout policy.
#[derive(Debug)]
pub struct ArkEscrowPolicy {
    pub escrow_tap_tree: String,
    pub max_fee_sats: u64,
    pub max_refund_fee_sats: u64,
    /// The script of the checkpoints that a refund goes through, in hexadecimal.
    pub checkpoint_exit_script: String,
}

/// What a player agrees to of the escrow that was fixed for their ticket, if it still is: the
/// coordinator keeps no more than its fee, and a refund no more than is set.
pub fn ticket_ark_escrow_policy(
    fixed: Option<TicketArkEscrow>,
    ticket: &Ticket,
    coordinator_fee: u64,
    settings: ArkSettings,
    checkpoint_script: &Vec<u8>,
) -> (policy: Result<ArkEscrowPolicy, ArkError>)
    ensures
        if fixed matches Some(escrow) && is_escrow_of(escrow, *ticket) {
            policy matches Ok(policy) && policy.escrow_tap_tree == fixed->0.escrow_tap_tree
                && policy.max_fee_sats == coordinator_fee && policy.max_refund_fee_sats
                == settings.max_refund_fee_sats && policy.checkpoint_exit_script@ == hex_text(
                checkpoint_script@,
            )
        } else {
            policy matches Err(error) && error is ReservationChanged
        },
{
    match fixed {
        Some(escrow) => if escrow.ticket_id == ticket.id && escrow.ticket_hash == ticket.hash {
            Ok(
                ArkEscrowPolicy {
                    escrow_tap_tree: escrow.escrow_tap_tree,
                    max_fee_sats: coordinator_fee,
                    max_refund_fee_sats: settings.max_refund_fee_sats,
                    checkpoint_exit_script: hex_encode(checkpoint_script),
                },
            )
        } else {
            Err(ArkError::ReservationChanged)
        },
        None => Err(ArkError::ReservationChanged),
    }
}

/// What a swap is asked for: the escrow's address, and the preimage that settles it.
#[derive(Debug)]
pub struct SwapTerms {
    pub escrow_address: String,
    pub preimage: Vec<u8>,
}

/// What the swap for a ticket is asked for. It pays to the ticket's hash, so the player learns the
/// ticket's preimage by paying.
pub fn ticket_ark_swap_terms(escrow: &Option<TicketArkEscrow>, ticket: &Ticket) -> (terms: Result<
    SwapTerms,
    ArkError,
>)
    ensures
        match *escrow {
            None => terms matches Err(error) && error is NoEscrow,
            Some(escrow) => if is_hex(ticket.encrypted_preimage@) && ticket.encrypted_preimage@.len()
                == 64 {
                terms matches Ok(terms) && terms.escrow_address == escrow.escrow_address
                    && terms.preimage@ == hex_bytes(ticket.encrypted_preimage@)
            } else {
                terms matches Err(error) && error is InvalidPreimage
            },
        },
{
    let escrow = match escrow {
        Some(escrow) => escrow,
        None => {
            return Err(ArkError::NoEscrow);
        },
    };
    match hex_decode(ticket.encrypted_preimage.as_str()) {
        Some(preimage) => if preimage.len() == 32 {
            Ok(SwapTerms { escrow_address: escrow.escrow_address.clone(), preimage })
        } else {
            Err(ArkError::InvalidPreimage)
        },
        None => Err(ArkError::InvalidPreimage),
    }
}

/// The swap for a ticket was made: its invoice has to pay to the ticket's hash. What is returned is
/// when it expires.
pub fn swap_was_created(ticket: &Ticket, payment_hash: &String, expires_at: i64) -> (checked: Result<
    Timestamp,
    ArkError,
>)
    ensures
        checked == if payment_hash@ != ticket.hash@ {
            Err::<Timestamp, ArkError>(ArkError::WrongHash)
        } else if !is_datetime(expires_at * SECOND) {
            Err::<Timestamp, ArkError>(ArkError::InvalidExpiry)
        } else {
            Ok::<Timestamp, ArkError>((expires_at * SECOND) as i128)
        },
{
    if *payment_hash != ticket.hash {
        return Err(ArkError::WrongHash);
    }
    let at: i128 = expires_at as i128 * SECOND;
    if at < crate::clock::FIRST_TIMESTAMP || at > crate::clock::LAST_TIMESTAMP {
        return Err(ArkError::InvalidExpiry);
    }
    Ok(at)
}

/// How far a swap has come.
#[derive(Clone, Copy, PartialEq, Eq, Structural, Debug)]
pub enum SwapState {
    AwaitingPayment,
    /// The escrow is paid, and the player's invoice is not settled yet.
    EscrowPaid,
    /// The player's invoice is settled.
    Settled,
    /// Settling failed, and the player's payment went back to them.
    Unsettled,
    /// Nobody paid.
    Expired,
}

/// A swap, as the swap service reports it.
#[derive(Debug)]
pub struct Swap {
    pub state: SwapState,
    pub amount_sat: u64,
    /// The output that it paid, where the service knows it.
    pub escrow_vtxo: Option<String>,
    /// The transaction that it paid in, where the service knows it.
    pub ark_txid: Option<String>,
}

/// An output that Arkade lists at an escrow's address.
#[derive(Debug)]
pub struct ListedVtxo {
    pub outpoint: OutPoint,
    pub amount_sats: u64,
    pub is_spent: bool,
    /// The transaction that spent it.
    pub spent_by: Option<Vec<u8>>,
    /// The Ark transaction that spent it.
    pub ark_txid: Option<Vec<u8>>,
}

/// The output is the one that the swap says it paid: the one it names, or else one of the
/// transaction it names.
pub open spec fn is_paid_by(vtxo: ListedVtxo, swap: Swap) -> bool {
    match swap.escrow_vtxo {
        Some(text) => named_output(text@) == Some(output_view(vtxo.outpoint)),
        None => match swap.ark_txid {
            Some(text) => named_transaction(text@) == Some(vtxo.outpoint.txid@),
            None => false,
        },
    }
}

/// The output funds the ticket's escrow: the swap paid it, it is unspent, and it is worth at least
/// what the ticket costs.
pub open spec fn funds(vtxo: ListedVtxo, swap: Swap, price: u64) -> bool {
    is_paid_by(vtxo, swap) && !vtxo.is_spent && vtxo.amount_sats >= price
}

/// The first output from the `from`th on that funds the ticket's escrow.
pub open spec fn funding_output(listed: Seq<ListedVtxo>, swap: Swap, price: u64, from: int) -> Option<
    int,
>
    decreases listed.len() - from,
{
    if from < 0 || from >= listed.len() {
        None
    } else if funds(listed[from], swap, price) {
        Some(from)
    } else {
        funding_output(listed, swap, price, from + 1)
    }
}

/// What comes of a swap.
#[derive(Clone, Copy, PartialEq, Eq, Structural, Debug)]
pub enum SwapVerdict {
    /// Nothing yet.
    Wait,
    /// The ticket is paid by the listed output at this index.
    Pay(usize),
    /// The ticket will not be paid: release its reservation.
    Release,
}

/// What comes of a swap, where Arkade lists these outputs at the escrow's address.
pub open spec fn verdict(swap: Swap, listed: Seq<ListedVtxo>, price: u64) -> SwapVerdict {
    match swap.state {
        SwapState::Unsettled | SwapState::Expired => SwapVerdict::Release,
        SwapState::AwaitingPayment | SwapState::EscrowPaid => SwapVerdict::Wait,
        SwapState::Settled => if swap.amount_sat != price {
            SwapVerdict::Wait
        } else {
            match funding_output(listed, swap, price, 0) {
                Some(at) => SwapVerdict::Pay(at as usize),
                None => SwapVerdict::Wait,
            }
        },
    }
}

/// Whether the output is the one that the swap says it paid.
fn swap_paid(vtxo: &ListedVtxo, swap: &Swap) -> (paid: bool)
    ensures
        paid == is_paid_by(*vtxo, *swap),
{
    match &swap.escrow_vtxo {
        Some(text) => match output_from_str(text.as_str()) {
            Some(named) => named.vout == vtxo.outpoint.vout && same_bytes(
                &named.txid,
                &vtxo.outpoint.txid,
            ),
            None => false,
        },
        None => match &swap.ark_txid {
            Some(text) => match txid_from_str(text.as_str()) {
                Some(txid) => same_bytes(&txid, &vtxo.outpoint.txid),
                None => false,
            },
            None => false,
        },
    }
}

/// What comes of a swap for a ticket of the given price. `listed` are the outputs that Arkade lists
/// at the ticket's escrow address. The ticket is paid once the player's invoice over its price is
/// settled and the escrow holds at least that much.
pub fn check_ark_swap(swap: &Swap, listed: &Vec<ListedVtxo>, price: u64) -> (decided: SwapVerdict)
    ensures
        decided == verdict(*swap, listed@, price),
        decided matches SwapVerdict::Pay(at) ==> at < listed@.len() && funds(
            listed@[at as int],
            *swap,
            price,
        ),
{
    match swap.state {
        SwapState::Unsettled | SwapState::Expired => {
            return SwapVerdict::Release;
        },
        SwapState::AwaitingPayment | SwapState::EscrowPaid => {
            return SwapVerdict::Wait;
        },
        SwapState::Settled => {},
    }
    if swap.amount_sat != price {
        return SwapVerdict::Wait;
    }
    let mut i: usize = 0;
    while i < listed.len()
        invariant
            i <= listed@.len(),
            swap.state is Settled,
            swap.amount_sat == price,
            funding_output(listed@, *swap, price, 0) == funding_output(
                listed@,
                *swap,
                price,
                i as int,
            ),
        decreases listed@.len() - i,
    {
        let vtxo = &listed[i];
        if !vtxo.is_spent && vtxo.amount_sats >= price && swap_paid(vtxo, swap) {
            return SwapVerdict::Pay(i);
        }
        i = i + 1;
    }
    SwapVerdict::Wait
}

/// The swap is still waited for: it is to fund the escrow of a reserved ticket.
pub open spec fn is_pending(escrow: TicketArkEscrow, ticket: Ticket) -> bool {
    is_escrow_of(escrow, ticket) && escrow.swap_id is Some && escrow.funded_at is None
        && ticket.reserved_at is Some
}

/// Whether the swap of a ticket is still waited for.
pub fn is_pending_ark_swap(escrow: &TicketArkEscrow, ticket: &Ticket) -> (pending: bool)
    ensures
        pending == is_pending(*escrow, *ticket),
{
    escrow.ticket_id == ticket.id && escrow.ticket_hash == ticket.hash && escrow.swap_id.is_some()
        && escrow.funded_at.is_none() && ticket.reserved_at.is_some()
}

/// A swap that is waited for.
#[derive(Debug)]
pub struct PendingArkSwap {
    pub ticket_id: Uuid,
    pub ticket_hash: String,
    pub competition_id: Uuid,
    pub swap_id: Uuid,
}

/// The swap that is to fund a ticket's escrow, where it is still waited for.
pub fn pending_ark_swap(escrow: &TicketArkEscrow, ticket: &Ticket) -> (pending: Option<
    PendingArkSwap,
>)
    ensures
        if is_pending(*escrow, *ticket) {
            pending matches Some(swap) && swap.ticket_id == ticket.id && swap.ticket_hash@
                == ticket.hash@ && swap.competition_id == ticket.competition_id && Some(
                swap.swap_id,
            ) == escrow.swap_id
        } else {
            pending is None
        },
{
    if !is_pending_ark_swap(escrow, ticket) {
        return None;
    }
    match escrow.swap_id {
        Some(swap_id) => Some(
            PendingArkSwap {
                ticket_id: ticket.id,
                ticket_hash: ticket.hash.clone(),
                competition_id: ticket.competition_id,
                swap_id,
            },
        ),
        None => None,
    }
}

/// Whether a ticket's escrow is one of those that fund a competition's pool: the ticket is paid for,
/// and the escrow for its present hash is funded.
pub fn is_funded_ark_escrow(escrow: &TicketArkEscrow, ticket: &Ticket, competition_id: Uuid) -> (
    funded: bool)
    ensures
        funded == (is_escrow_of(*escrow, *ticket) && ticket.competition_id == competition_id
            && ticket.paid_at is Some && escrow.funded_at is Some),
{
    escrow.ticket_id == ticket.id && escrow.ticket_hash == ticket.hash && ticket.competition_id
        == competition_id && ticket.paid_at.is_some() && escrow.funded_at.is_some()
}

/// The ticket is the one that was paid for, and still reserved.
pub open spec fn is_payable(ticket: Ticket, ticket_id: Uuid, hash: Seq<char>, competition_id: Uuid) -> bool {
    ticket.id == ticket_id && ticket.hash@ == hash && ticket.competition_id == competition_id
        && ticket.reserved_at is Some
}

/// The time that is kept, or else now.
pub open spec fn kept_time(kept: Option<Timestamp>, now: Timestamp) -> Option<Timestamp> {
    match kept {
        Some(at) => Some(at),
        None => Some(now),
    }
}

/// Record the output that funded a ticket's escrow, and the ticket as paid and settled with it: the
/// swap service settles the player's invoice itself. What is returned is whether the ticket was
/// still reserved for this hash and is now paid.
pub fn mark_ticket_ark_paid(
    ticket: &mut Ticket,
    escrow: &mut TicketArkEscrow,
    ticket_id: Uuid,
    ticket_hash: &String,
    competition_id: Uuid,
    vtxo: &ListedVtxo,
    now: Timestamp,
) -> (paid: bool)
    requires
        is_datetime(now as int),
        vtxo.outpoint.txid@.len() == 32,
    ensures
        paid == is_payable(*old(ticket), ticket_id, ticket_hash@, competition_id),
        *final(ticket) == if paid {
            Ticket {
                paid_at: kept_time(old(ticket).paid_at, now),
                settled_at: kept_time(old(ticket).settled_at, now),
                ..*old(ticket)
            }
        } else {
            *old(ticket)
        },
        if old(escrow).ticket_id == ticket_id && old(escrow).ticket_hash@ == ticket_hash@ && old(
            escrow,
        ).funded_at is None {
            &&& *final(escrow) == (TicketArkEscrow {
                vtxo_outpoint: final(escrow).vtxo_outpoint,
                vtxo_sats: Some(vtxo.amount_sats),
                funded_at: Some(whole_seconds(now as int) as i64),
                ..*old(escrow)
            })
            &&& text_view(final(escrow).vtxo_outpoint) == Some(
                output_text(vtxo.outpoint.txid@, vtxo.outpoint.vout),
            )
            &&& final(escrow).vtxo_outpoint matches Some(text) && named_output(text@) == Some(
                output_view(vtxo.outpoint),
            )
        } else {
            *final(escrow) == *old(escrow)
        },
{
    if escrow.ticket_id == ticket_id && escrow.ticket_hash == *ticket_hash
        && escrow.funded_at.is_none() {
        proof {
            outputs_read_back(vtxo.outpoint.txid@, vtxo.outpoint.vout);
        }
        escrow.vtxo_outpoint = Some(output_to_string(&vtxo.outpoint));
        escrow.vtxo_sats = Some(vtxo.amount_sats);
        escrow.funded_at = Some(unix_timestamp(now));
    }
    let payable: bool = ticket.id == ticket_id && ticket.hash == *ticket_hash
        && ticket.competition_id == competition_id && ticket.reserved_at.is_some();
    if payable {
        if ticket.paid_at.is_none() {
            ticket.paid_at = Some(now);
        }
        if ticket.settled_at.is_none() {
            ticket.settled_at = Some(now);
        }
    }
    payable
}

/// A ticket is paid only once the player's invoice over its price is settled, and only by an unspent
/// output at its own escrow's address that is worth at least what it costs and that its own swap
/// paid.
pub proof fn only_a_settled_swap_pays(swap: Swap, listed: Seq<ListedVtxo>, price: u64)
    requires
        verdict(swap, listed, price) is Pay,
        listed.len() <= usize::MAX,
    ensures
        swap.state is Settled,
        swap.amount_sat == price,
        exists|i: int|
            0 <= i < listed.len() && funds(#[trigger] listed[i], swap, price) && verdict(
                swap,
                listed,
                price,
            ) == SwapVerdict::Pay(i as usize),
{
    funding_is_listed(listed, swap, price, 0);
}

/// A ticket is paid as soon as its own swap, over its price, is settled and Arkade lists an unspent
/// output that the swap paid and that is worth at least what the ticket costs.
pub proof fn a_funded_escrow_pays(swap: Swap, listed: Seq<ListedVtxo>, price: u64, at: int)
    requires
        swap.state is Settled,
        swap.amount_sat == price,
        0 <= at < listed.len(),
        funds(listed[at], swap, price),
    ensures
        verdict(swap, listed, price) is Pay,
{
    funding_is_found(listed, swap, price, 0, at);
}

/// What funds the escrow is found, or something before it.
proof fn funding_is_found(listed: Seq<ListedVtxo>, swap: Swap, price: u64, from: int, at: int)
    requires
        0 <= from <= at < listed.len(),
        funds(listed[at], swap, price),
    ensures
        funding_output(listed, swap, price, from) is Some,
    decreases at - from,
{
    if from < at {
        funding_is_found(listed, swap, price, from + 1, at);
    }
}

/// What is found funds the escrow.
proof fn funding_is_listed(listed: Seq<ListedVtxo>, swap: Swap, price: u64, from: int)
    requires
        0 <= from,
    ensures
        funding_output(listed, swap, price, from) matches Some(at) ==> from <= at < listed.len()
            && funds(listed[at], swap, price),
    decreases listed.len() - from,
{
    if from < listed.len() {
        funding_is_listed(listed, swap, price, from + 1);
    }
}

} // verus!
