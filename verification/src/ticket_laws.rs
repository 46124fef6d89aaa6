//! What holds of every ticket: how it is offered, paid for and given back.

use crate::arkade::{
    funding_output, is_pending, refund_opens, verdict, ArkSettings, ListedVtxo, Swap, SwapState,
    SwapVerdict, TicketArkEscrow,
};
use crate::chain::{named_output, named_transaction};
use crate::claims::PaymentStatus;
use crate::clock::Timestamp;
use crate::competition::{Competition, CompetitionState, Uuid};
use crate::encoding::{hex_bytes, hex_text, is_hex, point_of_hex, sha256_digest};
use crate::entries::Ticket;
use crate::lifecycle::Coordinator;
use crate::psbt::is_psbt_encoding;
use crate::refunds::{
    advanced, after_recall, can_be_paid, claim_of, is_owed_back, is_replaced, is_unpaid,
    late_tickets, listed_at, must_be_signed, next_refund_step, owed_back, payable, refund_fee,
    refunded, resumes_from, spend_of, staleness, stored_refund, ArkRefundState, EscrowSpend,
    HeldEscrow, MintedStep, RefundError, RefundStep, Registered, TicketArkRefund,
};
use crate::registration::{
    is_of_use, registration_fault, registration_outcome, StoredRegistration, TicketRegistration,
};
use crate::sellback::bolt11;
use crate::tickets::{
    invoice_lifetime, open_for_tickets, RequestError, TicketRequestView, TicketStepView,
};
use vstd::prelude::*;

verus! {

/// A ticket that an entry was made with is used; otherwise one that is settled is settled, and one
/// that is paid for is paid. A reservation that is neither lapses once ten minutes have passed.
pub proof fn tickets_stand_as_they_were_used(ticket: Ticket, now: int)
    ensures
        ({
            let status = ticket.status_at(now);
            let open = ticket.entry_id is None && ticket.settled_at is None && ticket.paid_at
                is None;
            &&& status is Used == (ticket.entry_id is Some)
            &&& status is Settled == (ticket.entry_id is None && ticket.settled_at is Some)
            &&& status is Paid == (ticket.entry_id is None && ticket.settled_at is None
                && ticket.paid_at is Some)
            &&& status is Expired == (open && ticket.reserved_at is Some && now
                - ticket.reserved_at->0 > 600_000_000_000)
            &&& status is Reserved == (open && ticket.reserved_at is Some && now
                - ticket.reserved_at->0 <= 600_000_000_000)
            &&& status is Created == (open && ticket.reserved_at is None)
        }),
{
}

/// A ticket is shown to exactly the player whom it is reserved for, in its own competition.
pub proof fn tickets_are_their_players(ticket: Ticket, player: Seq<char>, competition_id: Uuid)
    ensures
        ticket.belongs(player, competition_id) is Ok == (ticket.competition_id == competition_id
            && ticket.reserved_by is Some && (ticket.reserved_by->0)@ == player),
        ticket.competition_id != competition_id ==> ticket.belongs(player, competition_id) == Err::<
            (),
            RequestError,
        >(RequestError::OtherCompetition),
{
}

/// A competition has a ticket to offer exactly as long as nothing came of it yet, and a place is
/// left.
pub proof fn tickets_are_offered_while_places_are_left(competition: Competition)
    ensures
        open_for_tickets(competition) is Ok == (competition.state() == CompetitionState::Created
            && competition.total_entries < competition.event_submission.total_allowed_entries),
        competition.state() == CompetitionState::Created && competition.total_entries
            >= competition.event_submission.total_allowed_entries ==> open_for_tickets(competition)
            == Err::<(), RequestError>(RequestError::CompetitionFull),
{
}

/// An invoice is good for a quarter of an hour at least, and otherwise until ten minutes past the
/// close of the entries, in whole seconds.
pub proof fn invoices_last_past_the_entries(closes_at: int, now: int)
    ensures
        invoice_lifetime(closes_at, now) >= 900,
        invoice_lifetime(closes_at, now) > 900 ==> invoice_lifetime(closes_at, now) * 1_000_000_000
            <= closes_at - now + 600_000_000_000 < (invoice_lifetime(closes_at, now) + 1)
            * 1_000_000_000,
        invoice_lifetime(closes_at, now) == 900 ==> closes_at - now + 600_000_000_000 < 901
            * 1_000_000_000,
{
}

/// A ticket is offered for the entry fee and the coordinator's fee together, to be paid to the hash of
/// the ticket's own preimage; its escrow locks the entry fee alone. An invoice is made exactly if the
/// ticket has none, over the whole price, to that hash.
pub proof fn tickets_cost_the_entry_and_the_fee(
    coordinator: Coordinator,
    ticket: Ticket,
    competition: Competition,
    coordinator_fee: u64,
    now: int,
)
    requires
        competition.event_submission.entry_fee + coordinator_fee <= u64::MAX,
    ensures
        ({
            let offered = coordinator.offer(ticket, competition, coordinator_fee, now);
            let price = competition.event_submission.entry_fee + coordinator_fee;
            let hash = sha256_digest(hex_bytes(ticket.encrypted_preimage@));
            &&& offered is Ok == is_hex(ticket.encrypted_preimage@)
            &&& offered matches Ok((request, step)) ==> {
                &&& request.ticket_id == ticket.id
                &&& request.competition_id == ticket.competition_id
                &&& request.ticket_hash == ticket.hash@
                &&& request.payment_hash == hash
                &&& request.amount_sats == price
                &&& request.escrow_tx is None
                &&& coordinator.escrow_enabled ==> (step matches TicketStepView::BuildEscrow {
                    amount_sats,
                    deadline,
                } && amount_sats == competition.event_submission.entry_fee)
                &&& !coordinator.escrow_enabled && ticket.payment_request is None ==> (step
                    matches TicketStepView::AddInvoice {
                    amount_sats,
                    expiry_seconds,
                    payment_hash,
                    escrow_tx,
                } && amount_sats == price && payment_hash == hex_text(hash) && escrow_tx.len()
                    == 0)
                &&& !coordinator.escrow_enabled && ticket.payment_request is Some ==> step
                    == if coordinator.keymeld_enabled {
                    TicketStepView::AssignRegistration
                } else {
                    TicketStepView::Respond
                }
            }
        }),
{
}

/// A registration is taken exactly if the ticket is the player's in this competition, there is a
/// session, the key is a point, and what it is registered under names this ticket and this key.
pub proof fn registrations_name_their_own_ticket_and_key(
    ticket: Ticket,
    player: Seq<char>,
    competition_id: Uuid,
    registration: TicketRegistration,
    has_session: bool,
)
    ensures
        ({
            let context = registration.keymeld_registration_context;
            let point = point_of_hex(registration.ephemeral_pubkey@);
            registration_fault(
                Some(ticket),
                player,
                competition_id,
                registration,
                has_session,
            ) is None == {
                &&& ticket.competition_id == competition_id
                &&& ticket.reserved_by is Some && (ticket.reserved_by->0)@ == player
                &&& has_session
                &&& point is Some
                &&& context.user_id == ticket.id
                &&& context.public_key@ == hex_text(point->0)
            }
        }),
{
}

/// What a player sends for their own reservation is stored exactly while the ticket is not paid and
/// it is new; the same once more changes nothing, and anything else that is sent for a paid ticket is
/// refused.
pub proof fn registrations_are_stored_until_paid(
    ticket: Ticket,
    stored: Option<StoredRegistration>,
    ticket_hash: Seq<char>,
    player: Seq<char>,
    sent: Seq<char>,
)
    ensures
        ({
            let outcome = registration_outcome(ticket, stored, ticket_hash, player, sent);
            let own = ticket.hash@ == ticket_hash && ticket.reserved_by is Some && (
            ticket.reserved_by->0)@ == player;
            let same = stored is Some && (stored->0).ticket_hash@ == ticket_hash && (
            stored->0).registration_json@ == sent;
            &&& outcome is ReservationChanged == !own
            &&& outcome is Unchanged == (own && same)
            &&& outcome is Stored == (own && !same && ticket.paid_at is None)
            &&& outcome is Fixed == (own && !same && ticket.paid_at is Some)
        }),
{
}

/// What is registered for a ticket is kept exactly while its reservation stands and it may be needed:
/// the competition goes on, or the ticket may still be paid, or its escrow is owed back and not yet
/// signed for.
pub proof fn registrations_are_kept_while_needed(
    stored: Option<StoredRegistration>,
    ticket: Ticket,
    competition: Competition,
    pool_funded: bool,
    escrow: Option<TicketArkEscrow>,
    refund: Option<TicketArkRefund>,
    now: Timestamp,
)
    ensures
        is_of_use(stored, ticket, competition, pool_funded, escrow, refund, now) == {
            &&& stored is Some
            &&& (stored->0).ticket_hash@ == ticket.hash@
            &&& ticket.reserved_at is Some
            &&& {
                ||| competition.cancelled_at is None && competition.failed_at is None
                    && competition.completed_at is None && competition.expiry_broadcasted_at is None
                ||| ticket.paid_at is None && ticket.invoice_expires_at is Some && now
                    < ticket.invoice_expires_at->0
                ||| escrow is Some && is_owed_back(
                    competition,
                    pool_funded,
                    ticket,
                    escrow->0,
                    refund,
                ) && (refund is None || refund->0.state is Minted)
            }
        },
{
}

/// An escrow can be refunded from the set time after the observations start, and never later than
/// when the contract expires.
pub proof fn refunds_open_by_the_expiry(competition: Competition, settings: ArkSettings)
    ensures
        ({
            let opens = refund_opens(competition, settings);
            let start = competition.event_submission.start_observation_date as int / 1_000_000_000;
            let after_start = start + settings.refund_after_start_secs;
            let expiry = match competition.event_announcement {
                Some(event) => event.expiry,
                None => None,
            };
            &&& opens <= after_start
            &&& expiry is Some ==> opens <= expiry->0
            &&& opens == after_start || (expiry is Some && opens == expiry->0)
        }),
{
}

/// The output is unspent, worth at least the price, and the one that the swap says it paid: the output
/// that it names, or where it names none, one of the transaction that it names.
pub open spec fn paid_the_price(vtxo: ListedVtxo, swap: Swap, price: u64) -> bool {
    &&& !vtxo.is_spent
    &&& vtxo.amount_sats >= price
    &&& swap.escrow_vtxo is Some ==> named_output((swap.escrow_vtxo->0)@) == Some(
        (vtxo.outpoint.txid@, vtxo.outpoint.vout),
    )
    &&& swap.escrow_vtxo is None ==> swap.ark_txid is Some && named_transaction(
        (swap.ark_txid->0)@,
    ) == Some(vtxo.outpoint.txid@)
}

/// The first output that funds an escrow paid the price, and none before it did.
proof fn funding_is_first(listed: Seq<ListedVtxo>, swap: Swap, price: u64, from: int)
    requires
        0 <= from,
    ensures
        match funding_output(listed, swap, price, from) {
            Some(at) => from <= at < listed.len() && paid_the_price(listed[at], swap, price)
                && forall|i: int|
                from <= i < at ==> !paid_the_price(#[trigger] listed[i], swap, price),
            None => forall|i: int|
                from <= i < listed.len() ==> !paid_the_price(#[trigger] listed[i], swap, price),
        },
    decreases listed.len() - from,
{
    if from < listed.len() {
        funding_is_first(listed, swap, price, from + 1);
    }
}

/// A ticket is paid exactly if its swap over its price is settled and an output at its escrow's
/// address paid the price, by the first such output. It is released exactly if the swap came to
/// nothing.
pub proof fn tickets_are_paid_by_their_own_swap(swap: Swap, listed: Seq<ListedVtxo>, price: u64)
    requires
        listed.len() <= usize::MAX,
    ensures
        ({
            let decided = verdict(swap, listed, price);
            &&& decided is Release == (swap.state == SwapState::Unsettled || swap.state
                == SwapState::Expired)
            &&& decided is Pay == (swap.state == SwapState::Settled && swap.amount_sat == price
                && exists|i: int|
                0 <= i < listed.len() && paid_the_price(#[trigger] listed[i], swap, price))
            &&& decided matches SwapVerdict::Pay(at) ==> at < listed.len() && paid_the_price(
                listed[at as int],
                swap,
                price,
            ) && forall|i: int|
                0 <= i < at ==> !paid_the_price(#[trigger] listed[i], swap, price)
        }),
{
    funding_is_first(listed, swap, price, 0);
}

/// A swap is waited for exactly while its ticket is reserved and the escrow for the ticket's present
/// hash is not funded.
pub proof fn swaps_are_waited_for_until_funded(escrow: TicketArkEscrow, ticket: Ticket)
    ensures
        is_pending(escrow, ticket) == (escrow.ticket_id == ticket.id && escrow.ticket_hash@
            == ticket.hash@ && escrow.swap_id is Some && escrow.funded_at is None
            && ticket.reserved_at is Some),
{
}

/// The tickets that can still be paid.
pub open spec fn payable_tickets(tickets: Seq<Ticket>, now: Timestamp) -> Set<int> {
    Set::new(
        |i: int|
            {
                &&& 0 <= i < tickets.len()
                &&& tickets[i].reserved_at is Some
                &&& tickets[i].paid_at is None
                &&& tickets[i].invoice_expires_at is Some
                &&& now < tickets[i].invoice_expires_at->0
            },
    )
}

/// As many tickets can still be paid as are reserved, not paid, and have an invoice that has not
/// expired.
pub proof fn payable_tickets_are_counted(tickets: Seq<Ticket>, now: Timestamp)
    ensures
        payable_tickets(tickets, now).finite(),
        payable(tickets, now) == payable_tickets(tickets, now).len(),
    decreases tickets.len(),
{
    if tickets.len() == 0 {
        assert(payable_tickets(tickets, now) =~= Set::empty());
    } else {
        let fewer = tickets.drop_last();
        let last = tickets.len() - 1;
        payable_tickets_are_counted(fewer, now);
        assert forall|i: int| 0 <= i < last implies tickets[i] == #[trigger] fewer[i] by {}
        if can_be_paid(tickets.last(), now) {
            assert(payable_tickets(tickets, now) =~= payable_tickets(fewer, now).insert(last));
        } else {
            assert(payable_tickets(tickets, now) =~= payable_tickets(fewer, now));
        }
    }
}

/// Registrations go on exactly if none was refused, and the first that was is told. The tickets that
/// were counted late are exactly those for which the roster was fixed.
pub proof fn late_tickets_are_those_after_the_roster(answers: Seq<(Uuid, Registered)>)
    ensures
        late_tickets(answers) is Ok == (forall|i: int|
            0 <= i < answers.len() ==> !((#[trigger] answers[i]).1 is Refused)),
        late_tickets(answers) matches Ok(late) ==> forall|id: Uuid| #[trigger]
            late.contains(id) <==> exists|i: int|
                0 <= i < answers.len() && #[trigger] answers[i] == (id, Registered::RosterFixed),
        late_tickets(answers) matches Err(error) ==> exists|at: int|
            0 <= at < answers.len() && (#[trigger] answers[at]).1 is Refused && error
                == RefundError::CannotRegister(answers[at].0) && forall|i: int|
                0 <= i < at ==> !((#[trigger] answers[i]).1 is Refused),
    decreases answers.len(),
{
    if answers.len() > 0 {
        let fewer = answers.drop_last();
        let last = answers.len() - 1;
        late_tickets_are_those_after_the_roster(fewer);
        assert forall|i: int| 0 <= i < last implies answers[i] == #[trigger] fewer[i] by {}
        if late_tickets(fewer) is Ok {
            assert forall|i: int| 0 <= i < last implies !((#[trigger] answers[i]).1 is Refused) by {
                assert(!(fewer[i].1 is Refused));
            }
            let earlier = late_tickets(fewer)->Ok_0;
            if let Ok(late) = late_tickets(answers) {
                assert forall|id: Uuid| #[trigger] late.contains(id) <==> exists|i: int|
                    0 <= i < answers.len() && #[trigger] answers[i] == (
                        id,
                        Registered::RosterFixed,
                    ) by {
                    if late.contains(id) {
                        let k = choose|k: int| 0 <= k < late.len() && late[k] == id;
                        if k < earlier.len() {
                            assert(earlier[k] == id);
                            assert(earlier.contains(id));
                            let i = choose|i: int|
                                0 <= i < fewer.len() && #[trigger] fewer[i] == (
                                    id,
                                    Registered::RosterFixed,
                                );
                            assert(answers[i] == (id, Registered::RosterFixed));
                        } else {
                            assert(answers[last] == (id, Registered::RosterFixed));
                        }
                    }
                    if exists|i: int|
                        0 <= i < answers.len() && #[trigger] answers[i] == (
                            id,
                            Registered::RosterFixed,
                        ) {
                        let i = choose|i: int|
                            0 <= i < answers.len() && #[trigger] answers[i] == (
                                id,
                                Registered::RosterFixed,
                            );
                        if i < last {
                            assert(fewer[i] == (id, Registered::RosterFixed));
                            assert(earlier.contains(id));
                            let k = choose|k: int| 0 <= k < earlier.len() && earlier[k] == id;
                            assert(late[k] == id);
                        } else {
                            assert(late[earlier.len() as int] == id);
                        }
                    }
                }
            }
        } else {
            let at = choose|at: int|
                0 <= at < fewer.len() && (#[trigger] fewer[at]).1 is Refused && late_tickets(
                    fewer,
                )->Err_0 == RefundError::CannotRegister(fewer[at].0) && forall|i: int|
                    0 <= i < at ==> !((#[trigger] fewer[i]).1 is Refused);
            assert(answers[at].1 is Refused);
            assert forall|i: int| 0 <= i < at implies !((#[trigger] answers[i]).1 is Refused) by {
                assert(!(fewer[i].1 is Refused));
            }
        }
    }
}

/// An escrow went into its refund exactly if it is spent in the refund's own Ark transaction or by its
/// own checkpoint; spent in any other way, it went elsewhere.
pub proof fn escrows_go_where_they_were_spent(
    listed: ListedVtxo,
    ark_txid: Seq<u8>,
    checkpoint: Seq<u8>,
)
    ensures
        ({
            let own = (listed.ark_txid is Some && (listed.ark_txid->0)@ == ark_txid) || (
            listed.spent_by is Some && (listed.spent_by->0)@ == checkpoint);
            &&& spend_of(listed, ark_txid, checkpoint) is Unspent == !listed.is_spent
            &&& spend_of(listed, ark_txid, checkpoint) is ByRefund == (listed.is_spent && own)
            &&& spend_of(listed, ark_txid, checkpoint) is Elsewhere == (listed.is_spent && !own)
        }),
{
}

/// The output that is found for an escrow is the escrow's own, the first that is listed.
pub proof fn escrows_are_found_by_their_output(
    listed: Seq<ListedVtxo>,
    txid: Seq<u8>,
    vout: u32,
    from: int,
)
    requires
        0 <= from,
    ensures
        match listed_at(listed, (txid, vout), from) {
            Some(at) => from <= at < listed.len() && listed[at].outpoint.txid@ == txid
                && listed[at].outpoint.vout == vout && forall|i: int|
                from <= i < at ==> !((#[trigger] listed[i]).outpoint.txid@ == txid
                    && listed[i].outpoint.vout == vout),
            None => forall|i: int|
                from <= i < listed.len() ==> !((#[trigger] listed[i]).outpoint.txid@ == txid
                    && listed[i].outpoint.vout == vout),
        },
    decreases listed.len() - from,
{
    if from < listed.len() {
        escrows_are_found_by_their_output(listed, txid, vout, from + 1);
    }
}

/// The fee of a refund is what is allowed, unless that would leave the player nothing: then the player
/// gets one satoshi. What the player is paid and the fee are never more than the escrow holds.
pub proof fn refunds_pay_all_but_the_fee(sats: u64, max_fee_sats: u64, fee: u64)
    ensures
        max_fee_sats < sats ==> refund_fee(sats, max_fee_sats) == max_fee_sats,
        sats > 0 && max_fee_sats >= sats ==> refund_fee(sats, max_fee_sats) == sats - 1,
        sats == 0 ==> refund_fee(sats, max_fee_sats) == 0,
        fee <= sats ==> refunded(sats, fee) + fee == sats,
        fee > sats ==> refunded(sats, fee) == 0,
{
}

/// A minted refund is stale exactly if its deadline is closer than what is signed for and five minutes
/// more, or its invoice expires within two minutes.
pub proof fn refunds_are_signed_in_time(
    invoice: Seq<char>,
    deadline: u32,
    soonest: u32,
    now: i64,
)
    requires
        now >= 0,
        bolt11(invoice) is Ok,
    ensures
        ({
            let expires_at = (bolt11(invoice)->Ok_0).2;
            staleness(invoice, deadline, soonest, now) == Ok::<bool, RefundError>(
                deadline - now < soonest + 300 || (expires_at is Some && expires_at->0 - now < 120),
            )
        }),
{
}

/// A minted refund is signed exactly if its escrow is unspent and it is not stale, and minted again
/// exactly if it is unspent, stale, and an hour old at least.
pub proof fn only_unspent_escrows_are_signed_for(
    spend: EscrowSpend,
    stale: Result<bool, RefundError>,
    created_at: i64,
    now: i64,
)
    ensures
        ({
            let step = after_recall(spend, stale, created_at, now);
            &&& (step matches Ok(MintedStep::Submit)) == (spend is Unspent && stale == Ok::<
                bool,
                RefundError,
            >(false))
            &&& (step matches Ok(MintedStep::Remint)) == (spend is Unspent && stale == Ok::<
                bool,
                RefundError,
            >(true) && now - created_at >= 3600)
        }),
{
}

/// A refund's swap is taken exactly with the proof of a payment that succeeded: 32 bytes in
/// hexadecimal.
pub proof fn swaps_are_taken_with_a_proof(status: PaymentStatus, preimage: Option<String>)
    ensures
        claim_of(status, preimage) is Ok == (status == PaymentStatus::Succeeded && preimage is Some
            && is_hex((preimage->0)@) && (preimage->0)@.len() == 64),
        claim_of(status, preimage) matches Ok(bytes) ==> bytes == hex_bytes((preimage->0)@),
{
}

/// An escrow is owed back exactly if its competition failed or was cancelled and no batch funded its
/// pool, its ticket was paid and its output funded for the ticket's present hash, and its refund is
/// not settled. What is given back is exactly what is owed, in order.
pub proof fn dead_competitions_owe_their_escrows_back(
    competition: Competition,
    pool_funded: bool,
    held: Seq<HeldEscrow>,
    upto: int,
)
    requires
        0 <= upto <= held.len() <= usize::MAX,
    ensures
        ({
            let owed = owed_back(competition, pool_funded, held, upto);
            &&& forall|k: int|
                0 <= k < owed.len() ==> (#[trigger] owed[k]) < upto && holds_what_is_owed(
                    competition,
                    pool_funded,
                    held[owed[k] as int],
                )
            &&& forall|i: usize|
                i < upto && holds_what_is_owed(competition, pool_funded, held[i as int])
                    ==> #[trigger] owed.contains(i)
            &&& forall|k: int, l: int|
                0 <= k < l < owed.len() ==> (#[trigger] owed[k]) < (#[trigger] owed[l])
        }),
    decreases upto,
{
    if upto > 0 {
        dead_competitions_owe_their_escrows_back(competition, pool_funded, held, upto - 1);
        let fewer = owed_back(competition, pool_funded, held, upto - 1);
        let owed = owed_back(competition, pool_funded, held, upto);
        assert forall|i: usize| i < upto && holds_what_is_owed(
            competition,
            pool_funded,
            held[i as int],
        ) implies #[trigger] owed.contains(i) by {
            if i < upto - 1 {
                assert(fewer.contains(i));
                let k = choose|k: int| 0 <= k < fewer.len() && fewer[k] == i;
                assert(owed[k] == i);
            } else {
                assert(owed[fewer.len() as int] == i);
            }
        }
    }
}

/// The escrow holds the buy-in of a paid ticket of a dead competition, and was not given back.
pub open spec fn holds_what_is_owed(
    competition: Competition,
    pool_funded: bool,
    held: HeldEscrow,
) -> bool {
    &&& competition.cancelled_at is Some || competition.failed_at is Some
    &&& !pool_funded
    &&& held.ticket.paid_at is Some
    &&& held.escrow.ticket_id == held.ticket.id
    &&& held.escrow.ticket_hash@ == held.ticket.hash@
    &&& held.escrow.funded_at is Some
    &&& held.refund is Some ==> !(held.refund->0.state is Settled)
}

/// A refund still has to be signed exactly if there is none, or it was minted and nothing more.
pub proof fn refunds_are_signed_once(refund: Option<TicketArkRefund>)
    ensures
        must_be_signed(refund) == (refund is None || refund->0.state is Minted),
{
}

/// The milestones of a competition, from the first that is reached to the last; the first of all is
/// that there is a competition.
pub open spec fn milestones(competition: Competition) -> Seq<(bool, CompetitionState)> {
    let places = competition.event_submission.total_allowed_entries;
    seq![
        (true, CompetitionState::Created),
        (
            competition.total_entries >= places && competition.total_paid_entries >= places,
            CompetitionState::EntriesCollected,
        ),
        (competition.escrow_funds_confirmed_at is Some, CompetitionState::EscrowFundsConfirmed),
        (competition.event_created_at is Some, CompetitionState::EventCreated),
        (competition.entries_submitted_at is Some, CompetitionState::EntriesSubmitted),
        (competition.contracted_at is Some, CompetitionState::ContractCreated),
        (competition.keymeld_keygen_completed_at is Some, CompetitionState::AwaitingSignatures),
        (competition.signed_at is Some, CompetitionState::SigningComplete),
        (competition.funding_broadcasted_at is Some, CompetitionState::FundingBroadcasted),
        (competition.funding_confirmed_at is Some, CompetitionState::FundingConfirmed),
        (competition.funding_settled_at is Some, CompetitionState::FundingSettled),
        (competition.awaiting_attestation_at is Some, CompetitionState::AwaitingAttestation),
        (competition.attestation is Some, CompetitionState::Attested),
        (competition.expiry_broadcasted_at is Some, CompetitionState::ExpiryBroadcasted),
        (competition.outcome_broadcasted_at is Some, CompetitionState::OutcomeBroadcasted),
        (competition.delta_broadcasted_at is Some, CompetitionState::DeltaBroadcasted),
        (competition.completed_at is Some, CompetitionState::Completed),
        (competition.failed_at is Some, CompetitionState::Failed),
        (competition.cancelled_at is Some, CompetitionState::Cancelled),
    ]
}

/// The state of a competition is that of the last milestone that it reached.
pub proof fn the_last_milestone_names_the_state(competition: Competition, at: int)
    requires
        0 <= at < milestones(competition).len(),
        milestones(competition)[at].0,
        forall|later: int|
            at < later < milestones(competition).len() ==> !(#[trigger] milestones(
                competition,
            )[later]).0,
    ensures
        competition.state() == milestones(competition)[at].1,
{
    let all = milestones(competition);
    assert(all.len() == 19);
    assert(at < 18 ==> !all[18].0);
    assert(at < 17 ==> !all[17].0);
    assert(at < 16 ==> !all[16].0);
    assert(at < 15 ==> !all[15].0);
    assert(at < 14 ==> !all[14].0);
    assert(at < 13 ==> !all[13].0);
    assert(at < 12 ==> !all[12].0);
    assert(at < 11 ==> !all[11].0);
    assert(at < 10 ==> !all[10].0);
    assert(at < 9 ==> !all[9].0);
    assert(at < 8 ==> !all[8].0);
    assert(at < 7 ==> !all[7].0);
    assert(at < 6 ==> !all[6].0);
    assert(at < 5 ==> !all[5].0);
    assert(at < 4 ==> !all[4].0);
    assert(at < 3 ==> !all[3].0);
    assert(at < 2 ==> !all[2].0);
    assert(at < 1 ==> !all[1].0);
}

/// Once its escrow is there, a ticket that has its invoice is offered with it, and one that has none
/// gets one for exactly what it costs, to its own hash; where Keymeld holds the keys, the enclave is
/// asked for first.
pub proof fn offers_are_made_for_what_a_ticket_costs(request: TicketRequestView, now: int)
    ensures
        request.payment_request is Some ==> request.after_escrow(now) == if request.keymeld {
            TicketStepView::AssignRegistration
        } else {
            TicketStepView::Respond
        },
        request.payment_request is None ==> (request.after_escrow(
            now,
        ) matches TicketStepView::AddInvoice { amount_sats, expiry_seconds, payment_hash, escrow_tx }
            && amount_sats == request.amount_sats && payment_hash == hex_text(request.payment_hash)
            && expiry_seconds == invoice_lifetime(request.closes_at as int, now) as u64 && (
        request.escrow_tx matches Some(made) ==> escrow_tx == made) && (request.escrow_tx is None
            ==> escrow_tx.len() == 0)),
{
}

/// A refund is finished from what was recorded of it exactly if the transaction's id and its signed
/// checkpoint can be read, and from those.
pub proof fn refunds_resume_from_what_was_recorded(txid: Seq<char>, psbt: Seq<char>)
    ensures
        resumes_from(txid, psbt) is Ok == (named_transaction(txid) is Some && is_hex(psbt)
            && is_psbt_encoding(hex_bytes(psbt))),
        resumes_from(txid, psbt) matches Ok(kept) ==> Some(kept.0) == named_transaction(txid)
            && kept.1 == hex_bytes(psbt),
{
}

/// The first refund that is recorded of a ticket stays recorded, and a fresh one takes its place only
/// while it is minted, of the same ticket, and the one that went stale.
pub proof fn refunds_are_recorded_once(
    stored: TicketArkRefund,
    refund: TicketArkRefund,
    stale_id: Uuid,
)
    ensures
        stored_refund(None, refund) == Some(refund),
        stored_refund(Some(stored), refund) == Some(stored),
        is_replaced(Some(stored), stale_id, refund) == (stored.refund_id == stale_id
            && stored.state == ArkRefundState::Minted && stored.ticket_id == refund.ticket_id),
        !is_replaced(None, stale_id, refund),
{
}

/// A refund that moves on takes its new state and the error of its last try, and what is told of its
/// transaction; what is not told stays, as does everything that it was made with.
pub proof fn refunds_move_on_with_what_is_told(
    refund: TicketArkRefund,
    state: ArkRefundState,
    ark_txid: Option<String>,
    checkpoint_psbt: Option<String>,
    error: Option<String>,
    now: i64,
)
    ensures
        ({
            let after = advanced(refund, state, ark_txid, checkpoint_psbt, error, now);
            &&& after.state == state
            &&& after.error == error
            &&& after.updated_at == now
            &&& ark_txid is Some ==> after.ark_txid == ark_txid
            &&& ark_txid is None ==> after.ark_txid == refund.ark_txid
            &&& checkpoint_psbt is Some ==> after.checkpoint_psbt == checkpoint_psbt
            &&& checkpoint_psbt is None ==> after.checkpoint_psbt == refund.checkpoint_psbt
            &&& after.ticket_id == refund.ticket_id
            &&& after.refund_id == refund.refund_id
            &&& after.invoice == refund.invoice
            &&& after.payment_hash == refund.payment_hash
            &&& after.fee_sats == refund.fee_sats
            &&& after.created_at == refund.created_at
        }),
{
}

/// A refund is minted before it is signed, signed before it is finished, finished before it is paid,
/// and left alone once it is settled; one is paid unless its payment is known to be made.
pub proof fn refunds_take_their_steps_in_order(refund: TicketArkRefund, status: PaymentStatus)
    ensures
        next_refund_step(None) == RefundStep::Mint,
        (next_refund_step(Some(refund)) == RefundStep::Recall) == (refund.state
            == ArkRefundState::Minted),
        (next_refund_step(Some(refund)) == RefundStep::Resume) == (refund.state
            == ArkRefundState::Submitting),
        (next_refund_step(Some(refund)) == RefundStep::Pay) == (refund.state
            == ArkRefundState::Submitted || refund.state == ArkRefundState::Paid),
        (next_refund_step(Some(refund)) == RefundStep::Done) == (refund.state
            == ArkRefundState::Settled),
        is_unpaid(None),
        is_unpaid(Some(status)) == (status != PaymentStatus::Succeeded),
{
}

} // verus!
