//! What outside work finds, entered in a competition: confirmations, the oracle's event, and the
//! invoices that are to be settled.

use crate::clock::Timestamp;
use crate::competition::{Competition, Uuid};
use crate::contract::EventAnnouncement;
use crate::contracting::{escrow_parts, read_escrow};
use crate::entries::{Ticket, UserEntry};
use crate::lifecycle::Coordinator;
use vstd::prelude::*;

verus! {

/// Why a competition makes no progress.
#[derive(Clone, Copy, PartialEq, Eq, Structural, Debug)]
pub enum ProgressError {
    /// The ticket's escrow transaction cannot be read.
    InvalidEscrow(Uuid),
    NoPaidEntries,
    /// There are not as many entries as there are places.
    EntryCount { entries: usize, allowed: usize },
    NoFundingTransaction,
}

/// The escrow transaction of a ticket.
#[derive(Debug)]
pub struct TicketEscrow {
    pub ticket_id: Uuid,
    pub txid: Vec<u8>,
}

/// The escrow transactions of the tickets that have one, in order, or the first that cannot be
/// read.
pub open spec fn escrows_of(tickets: Seq<Ticket>) -> Result<Seq<(Uuid, Seq<u8>)>, ProgressError>
    decreases tickets.len(),
{
    if tickets.len() == 0 {
        Ok(Seq::empty())
    } else {
        let last = tickets.last();
        match escrows_of(tickets.drop_last()) {
            Err(error) => Err(error),
            Ok(earlier) => match last.escrow_transaction {
                None => Ok(earlier),
                Some(escrow) => match escrow_parts(escrow@) {
                    None => Err(ProgressError::InvalidEscrow(last.id)),
                    Some((txid, _)) => Ok(earlier.push((last.id, txid))),
                },
            },
        }
    }
}

/// The escrows, with their ids as sequences of bytes.
pub open spec fn escrows_view(escrows: Seq<TicketEscrow>) -> Seq<(Uuid, Seq<u8>)> {
    escrows.map_values(|escrow: TicketEscrow| (escrow.ticket_id, escrow.txid@))
}

/// The first error stays the first, whatever tickets follow.
proof fn escrow_fault_is_final(tickets: Seq<Ticket>, upto: int)
    requires
        0 <= upto <= tickets.len(),
        escrows_of(tickets.take(upto)) is Err,
    ensures
        escrows_of(tickets) == escrows_of(tickets.take(upto)),
    decreases tickets.len() - upto,
{
    if upto < tickets.len() {
        assert(tickets.take(upto + 1).drop_last() =~= tickets.take(upto));
        escrow_fault_is_final(tickets, upto + 1);
    } else {
        assert(tickets.take(upto) =~= tickets);
    }
}

/// The escrow transactions whose confirmations are to be looked up.
pub fn escrow_transactions(tickets: &Vec<Ticket>) -> (escrows: Result<
    Vec<TicketEscrow>,
    ProgressError,
>)
    ensures
        match escrows_of(tickets@) {
            Ok(expected) => escrows matches Ok(found) && escrows_view(found@) == expected,
            Err(error) => escrows matches Err(told) && told == error,
        },
{
    let mut escrows: Vec<TicketEscrow> = Vec::new();
    let mut i: usize = 0;
    assert(tickets@.take(0) =~= Seq::empty());
    assert(escrows_view(escrows@) =~= Seq::empty());
    while i < tickets.len()
        invariant
            i <= tickets@.len(),
            escrows_of(tickets@.take(i as int)) == Ok::<Seq<(Uuid, Seq<u8>)>, ProgressError>(
                escrows_view(escrows@),
            ),
        decreases tickets@.len() - i,
    {
        assert(tickets@.take(i + 1).drop_last() =~= tickets@.take(i as int));
        let ticket = &tickets[i];
        if let Some(escrow) = &ticket.escrow_transaction {
            match read_escrow(escrow) {
                Some(parts) => {
                    let ghost before = escrows@;
                    escrows.push(TicketEscrow { ticket_id: ticket.id, txid: parts.txid });
                    assert(escrows_view(escrows@) =~= escrows_view(before).push(
                        (ticket.id, parts.txid@),
                    ));
                },
                None => {
                    proof {
                        escrow_fault_is_final(tickets@, i + 1);
                    }
                    return Err(ProgressError::InvalidEscrow(ticket.id));
                },
            }
        }
        i = i + 1;
    }
    assert(tickets@.take(i as int) =~= tickets@);
    Ok(escrows)
}

/// A transaction has as many confirmations as it needs.
pub open spec fn confirmed(confirmations: Option<u32>, required: u32) -> bool {
    match confirmations {
        Some(confirmations) => confirmations >= required,
        None => false,
    }
}

impl Coordinator {
    /// Enter what was found of a competition's escrow transactions, each with its confirmations if
    /// the chain knows it: once all of them have enough, the escrows are confirmed. The errors
    /// start afresh either way.
    pub fn escrows_checked(
        &self,
        competition: &mut Competition,
        confirmations: &Vec<Option<u32>>,
        now: Timestamp,
    ) -> (all: bool)
        ensures
            all == (forall|i: int|
                0 <= i < confirmations@.len() ==> confirmed(
                    #[trigger] confirmations@[i],
                    self.required_confirmations,
                )),
            final(competition).errors@.len() == 0,
            *final(competition) == (Competition {
                escrow_funds_confirmed_at: if all {
                    Some(now)
                } else {
                    old(competition).escrow_funds_confirmed_at
                },
                errors: final(competition).errors,
                ..*old(competition)
            }),
    {
        let mut all = true;
        let mut i: usize = 0;
        while i < confirmations.len()
            invariant
                i <= confirmations@.len(),
                all == (forall|j: int|
                    0 <= j < i ==> confirmed(
                        #[trigger] confirmations@[j],
                        self.required_confirmations,
                    )),
            decreases confirmations@.len() - i,
        {
            match confirmations[i] {
                Some(found) => {
                    if found < self.required_confirmations {
                        assert(!confirmed(confirmations@[i as int], self.required_confirmations));
                        all = false;
                    }
                },
                None => {
                    assert(!confirmed(confirmations@[i as int], self.required_confirmations));
                    all = false;
                },
            }
            i = i + 1;
        }
        if all {
            competition.escrow_funds_confirmed_at = Some(now);
        }
        competition.errors = Vec::new();
        all
    }

    /// Enter what was found of a competition's funding transaction: once it has enough
    /// confirmations it is confirmed, at the time that was found first. The errors start afresh
    /// either way.
    pub fn funding_looked_up(
        &self,
        competition: &mut Competition,
        confirmations: Option<u32>,
        now: Timestamp,
    ) -> (entered: Result<(), ProgressError>)
        ensures
            if old(competition).funding_transaction is None {
                &&& entered == Err::<(), ProgressError>(ProgressError::NoFundingTransaction)
                &&& *final(competition) == *old(competition)
            } else {
                &&& entered == Ok::<(), ProgressError>(())
                &&& final(competition).errors@.len() == 0
                &&& *final(competition) == (Competition {
                    funding_confirmed_at: match old(competition).funding_confirmed_at {
                        Some(at) => Some(at),
                        None => if confirmed(confirmations, self.required_confirmations) {
                            Some(now)
                        } else {
                            None
                        },
                    },
                    errors: final(competition).errors,
                    ..*old(competition)
                })
            },
    {
        if competition.funding_transaction.is_none() {
            return Err(ProgressError::NoFundingTransaction);
        }
        if let Some(found) = confirmations {
            if found >= self.required_confirmations && competition.funding_confirmed_at.is_none() {
                competition.funding_confirmed_at = Some(now);
            }
        }
        competition.errors = Vec::new();
        Ok(())
    }
}

/// The oracle's event still has to be created.
pub fn needs_event(competition: &Competition) -> (needs: bool)
    ensures
        needs == (competition.event_created_at is None),
{
    competition.event_created_at.is_none()
}

/// The oracle announced the event before the competition is full, so that players can agree to what
/// they are paid under. The competition stays where it is.
pub fn event_was_announced(competition: &mut Competition, event_announcement: EventAnnouncement)
    ensures
        *final(competition) == (Competition {
            event_announcement: Some(event_announcement),
            ..*old(competition)
        }),
        final(competition).state() == old(competition).state(),
{
    competition.event_announcement = Some(event_announcement);
}

/// The oracle created the event.
pub fn event_was_created(
    competition: &mut Competition,
    event_announcement: EventAnnouncement,
    now: Timestamp,
)
    ensures
        final(competition).errors@.len() == 0,
        *final(competition) == (Competition {
            event_announcement: Some(event_announcement),
            event_created_at: Some(now),
            errors: final(competition).errors,
            ..*old(competition)
        }),
{
    competition.event_announcement = Some(event_announcement);
    competition.event_created_at = Some(now);
    competition.errors = Vec::new();
}

/// Whether the paid entries of a competition can be sent to the oracle, and still have to be:
/// exactly as many as there are places.
pub fn check_entry_submissions(competition: &Competition, entries: &Vec<UserEntry>) -> (submit: Result<
    bool,
    ProgressError,
>)
    ensures
        submit == if entries@.len() == 0 {
            Err::<bool, ProgressError>(ProgressError::NoPaidEntries)
        } else if entries@.len() != competition.event_submission.total_allowed_entries {
            Err::<bool, ProgressError>(
                ProgressError::EntryCount {
                    entries: entries@.len() as usize,
                    allowed: competition.event_submission.total_allowed_entries,
                },
            )
        } else {
            Ok::<bool, ProgressError>(competition.entries_submitted_at is None)
        },
{
    if entries.len() == 0 {
        return Err(ProgressError::NoPaidEntries);
    }
    if entries.len() != competition.event_submission.total_allowed_entries {
        return Err(
            ProgressError::EntryCount {
                entries: entries.len(),
                allowed: competition.event_submission.total_allowed_entries,
            },
        );
    }
    Ok(competition.entries_submitted_at.is_none())
}

/// The oracle holds the entries, since the time that was entered first.
pub fn entries_were_submitted(competition: &mut Competition, now: Timestamp)
    ensures
        final(competition).errors@.len() == 0,
        *final(competition) == (Competition {
            entries_submitted_at: match old(competition).entries_submitted_at {
                Some(at) => Some(at),
                None => Some(now),
            },
            errors: final(competition).errors,
            ..*old(competition)
        }),
{
    if competition.entries_submitted_at.is_none() {
        competition.entries_submitted_at = Some(now);
    }
    competition.errors = Vec::new();
}

/// Keymeld's keys are made.
pub fn keygen_was_completed(competition: &mut Competition, now: Timestamp)
    ensures
        *final(competition) == (Competition {
            keymeld_keygen_completed_at: Some(now),
            ..*old(competition)
        }),
{
    competition.keymeld_keygen_completed_at = Some(now);
}

/// A ticket that was paid for with an invoice that is still held.
pub open spec fn held(ticket: Ticket) -> bool {
    ticket.paid_at is Some && ticket.settled_at is None
}

/// The tickets whose invoices are to be settled.
pub open spec fn held_tickets(tickets: Seq<Ticket>) -> Seq<Uuid>
    decreases tickets.len(),
{
    if tickets.len() == 0 {
        Seq::empty()
    } else {
        let earlier = held_tickets(tickets.drop_last());
        if held(tickets.last()) {
            earlier.push(tickets.last().id)
        } else {
            earlier
        }
    }
}

/// The tickets whose invoices are to be settled: those that are paid and not settled yet.
pub fn tickets_to_settle(tickets: &Vec<Ticket>) -> (ids: Vec<Uuid>)
    ensures
        ids@ == held_tickets(tickets@),
{
    let mut ids: Vec<Uuid> = Vec::new();
    let mut i: usize = 0;
    assert(tickets@.take(0) =~= Seq::empty());
    while i < tickets.len()
        invariant
            i <= tickets@.len(),
            ids@ == held_tickets(tickets@.take(i as int)),
        decreases tickets@.len() - i,
    {
        assert(tickets@.take(i + 1).drop_last() =~= tickets@.take(i as int));
        if tickets[i].paid_at.is_some() && tickets[i].settled_at.is_none() {
            ids.push(tickets[i].id);
        }
        i = i + 1;
    }
    assert(tickets@.take(i as int) =~= tickets@);
    ids
}

/// Work on a settlement went well: the errors start afresh.
pub fn clear_errors(competition: &mut Competition)
    ensures
        final(competition).errors@.len() == 0,
        *final(competition) == (Competition {
            errors: final(competition).errors,
            ..*old(competition)
        }),
{
    competition.errors = Vec::new();
}

} // verus!
