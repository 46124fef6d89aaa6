//! Returning a funded escrow to its player, when the competition that it paid for never started.
//!
//! The escrow is refunded into a swap that pays the player's Lightning address, and the swap service
//! takes the escrow in exchange. Each step is recorded before the next begins, so that an outage is
//! picked up again rather than repeated: a player is paid once, and an escrow is spent once.

use crate::arkade::{ListedVtxo, TicketArkEscrow};
use crate::chain::{
    named_output, named_transaction, output_from_str, output_view, txid_from_str, txid_text,
    txid_to_string, txids_read_back,
};
use crate::claims::PaymentStatus;
use crate::clock::Timestamp;
use crate::competition::{Competition, Uuid};
use crate::contract::OutPoint;
use crate::encoding::{
    bytes_view, hex_bytes, hex_decode, hex_encode, hex_round_trips, hex_text, is_hex,
};
use crate::entries::Ticket;
use crate::payout_jobs::{extract_payment_hash_from_invoice, invoice_hash};
use crate::payouts::same_bytes;
use crate::psbt::{is_psbt, is_psbt_encoding};
use crate::sellback::{bolt11, read_bolt11};
use crate::tickets::RequestError;
use vstd::prelude::*;

verus! {

/// Where a funded escrow's refund has got to.
#[derive(Clone, Copy, PartialEq, Eq, Structural, Debug)]
pub enum ArkRefundState {
    /// The swap that the refund pays is minted, for an invoice from the player's address.
    Minted,
    /// The refund's transactions are built and going to Arkade. The escrow may or may not be spent
    /// yet, so what is picked up again is finished from what was kept.
    Submitting,
    /// The escrow was spent into the swap.
    Submitted,
    /// The player's invoice was paid, and its preimage given to the swap service.
    Paid,
    /// The swap service has taken the swap, so the refund is done.
    Settled,
}

impl ArkRefundState {
    /// The word that a state is stored as.
    pub open spec fn word(self) -> Seq<char> {
        match self {
            ArkRefundState::Minted => "minted"@,
            ArkRefundState::Submitting => "submitting"@,
            ArkRefundState::Submitted => "submitted"@,
            ArkRefundState::Paid => "paid"@,
            ArkRefundState::Settled => "settled"@,
        }
    }

    /// How far a refund has come, by its state.
    pub open spec fn rank(self) -> int {
        match self {
            ArkRefundState::Minted => 0,
            ArkRefundState::Submitting => 1,
            ArkRefundState::Submitted => 2,
            ArkRefundState::Paid => 3,
            ArkRefundState::Settled => 4,
        }
    }

    /// The word that the state is stored as.
    pub fn as_str(self) -> (word: &'static str)
        ensures
            word@ == self.word(),
    {
        match self {
            ArkRefundState::Minted => "minted",
            ArkRefundState::Submitting => "submitting",
            ArkRefundState::Submitted => "submitted",
            ArkRefundState::Paid => "paid",
            ArkRefundState::Settled => "settled",
        }
    }

    /// The state that a word stands for, if it stands for one.
    pub fn from_word(word: &String) -> (state: Option<Self>)
        ensures
            match state {
                Some(state) => state.word() == word@,
                None => forall|state: Self| #[trigger] state.word() != word@,
            },
    {
        if *word == "minted".to_owned() {
            return Some(ArkRefundState::Minted);
        }
        if *word == "submitting".to_owned() {
            return Some(ArkRefundState::Submitting);
        }
        if *word == "submitted".to_owned() {
            return Some(ArkRefundState::Submitted);
        }
        if *word == "paid".to_owned() {
            return Some(ArkRefundState::Paid);
        }
        if *word == "settled".to_owned() {
            return Some(ArkRefundState::Settled);
        }
        None
    }
}

/// Each state has a word of its own, so what is stored is read back as it was.
pub proof fn words_name_one_state(a: ArkRefundState, b: ArkRefundState)
    requires
        a.word() == b.word(),
    ensures
        a == b,
{
    reveal_strlit("minted");
    reveal_strlit("submitting");
    reveal_strlit("submitted");
    reveal_strlit("paid");
    reveal_strlit("settled");
    assert("minted"@.len() == 6);
    assert("submitting"@.len() == 10);
    assert("submitted"@.len() == 9);
    assert("paid"@.len() == 4);
    assert("settled"@.len() == 7);
    assert(a.word().len() == b.word().len());
}

/// One ticket's refund, and the swap that pays its player. Times are in UNIX seconds.
#[derive(Debug)]
pub struct TicketArkRefund {
    pub ticket_id: Uuid,
    pub refund_id: Uuid,
    pub invoice: String,
    pub payment_hash: String,
    pub fee_sats: u64,
    pub state: ArkRefundState,
    pub ark_txid: Option<String>,
    /// The checkpoint that Arkade signed, in hexadecimal, kept so that an interrupted refund is
    /// finished with it. Only the escrow's owner can sign it.
    pub checkpoint_psbt: Option<String>,
    pub error: Option<String>,
    pub created_at: i64,
    pub updated_at: i64,
}

/// The refund that is recorded once another is to be: the one that was recorded stays.
pub open spec fn stored_refund(
    stored: Option<TicketArkRefund>,
    refund: TicketArkRefund,
) -> Option<TicketArkRefund> {
    match stored {
        Some(kept) => Some(kept),
        None => Some(refund),
    }
}

/// Record a new refund, before anything is signed or paid. A ticket has one refund, so one that is
/// recorded stays.
pub fn store_ticket_ark_refund(stored: &mut Option<TicketArkRefund>, refund: TicketArkRefund)
    ensures
        *final(stored) == stored_refund(*old(stored), refund),
{
    if stored.is_none() {
        *stored = Some(refund);
    }
}

/// What is told, or else what was kept.
pub open spec fn told_or_kept(told: Option<String>, kept: Option<String>) -> Option<String> {
    match told {
        Some(told) => Some(told),
        None => kept,
    }
}

/// A refund once it is moved on.
pub open spec fn advanced(
    refund: TicketArkRefund,
    state: ArkRefundState,
    ark_txid: Option<String>,
    checkpoint_psbt: Option<String>,
    error: Option<String>,
    now: i64,
) -> TicketArkRefund {
    TicketArkRefund {
        state,
        ark_txid: told_or_kept(ark_txid, refund.ark_txid),
        checkpoint_psbt: told_or_kept(checkpoint_psbt, refund.checkpoint_psbt),
        error,
        updated_at: now,
        ..refund
    }
}

/// Move a refund on, once the step before is done. What is recorded stays where nothing new is
/// known.
pub fn advance_ticket_ark_refund(
    refund: &mut TicketArkRefund,
    state: ArkRefundState,
    ark_txid: Option<String>,
    checkpoint_psbt: Option<String>,
    error: Option<String>,
    now: i64,
)
    ensures
        *final(refund) == advanced(*old(refund), state, ark_txid, checkpoint_psbt, error, now),
{
    refund.state = state;
    if ark_txid.is_some() {
        refund.ark_txid = ark_txid;
    }
    if checkpoint_psbt.is_some() {
        refund.checkpoint_psbt = checkpoint_psbt;
    }
    refund.error = error;
    refund.updated_at = now;
}

/// A fresh refund takes the place of the recorded one: that is still minted, and still the one that
/// went stale.
pub open spec fn is_replaced(
    stored: Option<TicketArkRefund>,
    stale_id: Uuid,
    fresh: TicketArkRefund,
) -> bool {
    stored matches Some(kept) && kept.refund_id == stale_id && kept.state is Minted
        && kept.ticket_id == fresh.ticket_id
}

/// Put a fresh refund in the place of a stale one, as long as nothing was signed for that: it is
/// still minted, and still the one that went stale. What is returned is whether it was replaced.
pub fn replace_minted_ticket_ark_refund(
    stored: &mut Option<TicketArkRefund>,
    stale_id: Uuid,
    fresh: TicketArkRefund,
) -> (replaced: bool)
    ensures
        replaced == is_replaced(*old(stored), stale_id, fresh),
        *final(stored) == if replaced {
            Some(fresh)
        } else {
            *old(stored)
        },
{
    let replaces: bool = match &*stored {
        Some(kept) => kept.refund_id == stale_id && kept.state == ArkRefundState::Minted
            && kept.ticket_id == fresh.ticket_id,
        None => false,
    };
    if replaces {
        *stored = Some(fresh);
    }
    replaces
}

/// Why a refund cannot go on now.
#[derive(Clone, Copy, PartialEq, Eq, Structural, Debug)]
pub enum RefundError {
    /// The escrow has no funded output.
    Unfunded,
    /// The output that funded the escrow is none.
    InvalidOutput,
    /// It is not known what the escrow holds.
    NoAmount,
    /// Nobody sent a key that could sign the refund: it needs an operator.
    NeverRegistered,
    /// The ticket was counted after Keymeld was given the roster: it needs an operator.
    CountedLate,
    /// So many tickets can still be paid, and Keymeld's roster cannot change once it signs.
    StillPayable(u64),
    /// The competition has no Keymeld session.
    NoSession,
    /// The player could not be registered with Keymeld.
    CannotRegister(Uuid),
    /// The escrow was spent by something else: it needs an operator.
    SpentElsewhere,
    /// The escrow went into the refund, but it is not known whether that was finished: it needs an
    /// operator.
    SpentByRefund,
    /// Arkade does not list the escrow.
    NotListed,
    /// The minted refund expired before it was signed, and is minted again from then on.
    MintedAgainFrom(i64),
    /// The refund moved on while it was minted again.
    MovedOn,
    /// The fee leaves the player nothing.
    NothingLeft,
    /// The clock is out of range.
    ClockOutOfRange,
    /// The refund's invoice cannot be read.
    InvalidInvoice,
    /// The refund was submitted without its checkpoint being kept.
    NoCheckpoint,
    /// The kept transaction id is none.
    InvalidTxid,
    /// The kept checkpoint is no partially signed transaction in hexadecimal.
    InvalidCheckpoint,
    /// The payment to the player has not settled.
    Unsettled,
    /// There is no proof of the payment.
    NoProof,
    /// The proof of the payment is not 32 bytes.
    InvalidProof,
}

/// A funded escrow whose refund has opened: its output, and what it holds.
#[derive(Debug)]
pub struct Refundable {
    pub ticket_id: Uuid,
    pub outpoint: OutPoint,
    pub sats: u64,
}

/// Whether an escrow's refund has opened, which it does at `open_at`, and what there is to refund.
pub fn refundable(escrow: &TicketArkEscrow, open_at: u32, now: i64) -> (found: Result<
    Option<Refundable>,
    RefundError,
>)
    ensures
        if now < open_at {
            found matches Ok(None)
        } else {
            match escrow.vtxo_outpoint {
                None => found matches Err(error) && error is Unfunded,
                Some(text) => match named_output(text@) {
                    None => found matches Err(error) && error is InvalidOutput,
                    Some(outpoint) => match escrow.vtxo_sats {
                        None => found matches Err(error) && error is NoAmount,
                        Some(sats) => found matches Ok(Some(open)) && open.ticket_id
                            == escrow.ticket_id && output_view(open.outpoint) == outpoint
                            && open.sats == sats,
                    },
                },
            }
        },
{
    if now < open_at as i64 {
        return Ok(None);
    }
    let outpoint = match &escrow.vtxo_outpoint {
        Some(text) => match output_from_str(text.as_str()) {
            Some(outpoint) => outpoint,
            None => {
                return Err(RefundError::InvalidOutput);
            },
        },
        None => {
            return Err(RefundError::Unfunded);
        },
    };
    match escrow.vtxo_sats {
        Some(sats) => Ok(Some(Refundable { ticket_id: escrow.ticket_id, outpoint, sats })),
        None => Err(RefundError::NoAmount),
    }
}

/// The refund still has to be signed: it was never minted, or minted but never submitted.
pub open spec fn must_be_signed(refund: Option<TicketArkRefund>) -> bool {
    refund matches Some(refund) ==> refund.state is Minted
}

/// Whether the refund still has to be signed.
pub fn needs_signing(refund: &Option<TicketArkRefund>) -> (needs: bool)
    ensures
        needs == must_be_signed(*refund),
{
    match refund {
        Some(refund) => refund.state == ArkRefundState::Minted,
        None => true,
    }
}

/// What is done for one of a competition's open refunds.
#[derive(Clone, Copy, PartialEq, Eq, Structural, Debug)]
pub enum RefundTurn {
    /// Carry it on.
    Carry,
    /// Leave it for now: why nothing can be signed was told already.
    Skip,
    /// Leave it, and tell why.
    Report(RefundError),
}

/// What is done for one of a competition's open refunds. `has_key` is whether its player sent
/// Keymeld a key, with an entry or before paying; `has_session` whether Keymeld can sign now; and
/// `counted_late` whether the ticket was counted after Keymeld was given the roster.
pub fn refund_turn(
    refund: &Option<TicketArkRefund>,
    has_key: bool,
    has_session: bool,
    counted_late: bool,
) -> (turn: RefundTurn)
    ensures
        turn == if !has_key {
            RefundTurn::Report(RefundError::NeverRegistered)
        } else if must_be_signed(*refund) && !has_session {
            RefundTurn::Skip
        } else if must_be_signed(*refund) && counted_late {
            RefundTurn::Report(RefundError::CountedLate)
        } else {
            RefundTurn::Carry
        },
{
    if !has_key {
        return RefundTurn::Report(RefundError::NeverRegistered);
    }
    if needs_signing(refund) && !has_session {
        return RefundTurn::Skip;
    }
    if needs_signing(refund) && counted_late {
        return RefundTurn::Report(RefundError::CountedLate);
    }
    RefundTurn::Carry
}

/// The ticket can still be paid: it is reserved and not paid, and its invoice has not expired.
pub open spec fn can_be_paid(ticket: Ticket, now: Timestamp) -> bool {
    &&& ticket.reserved_at is Some
    &&& ticket.paid_at is None
    &&& ticket.invoice_expires_at matches Some(expires_at) && now < expires_at
}

/// Whether the ticket can still be paid.
pub fn is_payable(ticket: &Ticket, now: Timestamp) -> (payable: bool)
    ensures
        payable == can_be_paid(*ticket, now),
{
    match ticket.invoice_expires_at {
        Some(expires_at) => ticket.reserved_at.is_some() && ticket.paid_at.is_none() && now
            < expires_at,
        None => false,
    }
}

/// How many of the tickets can still be paid.
pub open spec fn payable(tickets: Seq<Ticket>, now: Timestamp) -> nat
    decreases tickets.len(),
{
    if tickets.len() == 0 {
        0
    } else {
        payable(tickets.drop_last(), now) + if can_be_paid(tickets.last(), now) {
            1nat
        } else {
            0nat
        }
    }
}

/// How many of the tickets can still be paid.
pub fn payable_ticket_count(tickets: &Vec<Ticket>, now: Timestamp) -> (count: u64)
    ensures
        count == payable(tickets@, now),
        count <= tickets@.len(),
{
    let mut count: u64 = 0;
    let mut i: usize = 0;
    assert(tickets@.take(0) =~= Seq::empty());
    while i < tickets.len()
        invariant
            i <= tickets@.len(),
            count == payable(tickets@.take(i as int), now),
            count <= i,
        decreases tickets@.len() - i,
    {
        assert(tickets@.take(i + 1).drop_last() =~= tickets@.take(i as int));
        if is_payable(&tickets[i], now) {
            count = count + 1;
        }
        i = i + 1;
    }
    assert(tickets@.take(i as int) =~= tickets@);
    count
}

/// What Keymeld said to a player's registration.
#[derive(Clone, Copy, PartialEq, Eq, Structural, Debug)]
pub enum Registered {
    Done,
    /// The roster is fixed, and the player is not in it.
    RosterFixed,
    /// Keymeld would not register them, or there was nothing to register.
    Refused,
}

/// The tickets that were counted too late, in order; or the first player who could not be
/// registered.
pub open spec fn late_tickets(answers: Seq<(Uuid, Registered)>) -> Result<Seq<Uuid>, RefundError>
    decreases answers.len(),
{
    if answers.len() == 0 {
        Ok(Seq::empty())
    } else {
        match late_tickets(answers.drop_last()) {
            Err(error) => Err(error),
            Ok(late) => match answers.last().1 {
                Registered::Done => Ok(late),
                Registered::RosterFixed => Ok(late.push(answers.last().0)),
                Registered::Refused => Err(RefundError::CannotRegister(answers.last().0)),
            },
        }
    }
}

/// The first error stays the first, whatever answers follow.
proof fn late_fault_is_final(answers: Seq<(Uuid, Registered)>, upto: int)
    requires
        0 <= upto <= answers.len(),
        late_tickets(answers.take(upto)) is Err,
    ensures
        late_tickets(answers) == late_tickets(answers.take(upto)),
    decreases answers.len() - upto,
{
    if upto < answers.len() {
        assert(answers.take(upto + 1).drop_last() =~= answers.take(upto));
        late_fault_is_final(answers, upto + 1);
    } else {
        assert(answers.take(upto) =~= answers);
    }
}

/// Check that refunds can be signed for a competition: none of its tickets can still be paid, since
/// Keymeld's roster cannot change once it signs, and it has a session.
pub fn check_refund_session(still_payable: u64, has_session: bool) -> (checked: Result<(), RefundError>)
    ensures
        checked == if still_payable > 0 {
            Err::<(), RefundError>(RefundError::StillPayable(still_payable))
        } else if !has_session {
            Err::<(), RefundError>(RefundError::NoSession)
        } else {
            Ok::<(), RefundError>(())
        },
{
    if still_payable > 0 {
        return Err(RefundError::StillPayable(still_payable));
    }
    if !has_session {
        return Err(RefundError::NoSession);
    }
    Ok(())
}

/// What Keymeld said to the registrations of the paid tickets' players, by ticket: those that were
/// counted after it was given the roster are left for an operator, and any other failure stops the
/// signing for now, so that a passing fault leaves nobody out.
pub fn registrations_were_sent(answers: &Vec<(Uuid, Registered)>) -> (late: Result<
    Vec<Uuid>,
    RefundError,
>)
    ensures
        match late_tickets(answers@) {
            Ok(expected) => late matches Ok(late) && late@ == expected,
            Err(error) => late matches Err(told) && told == error,
        },
{
    let mut late: Vec<Uuid> = Vec::new();
    assert(answers@.take(0) =~= Seq::empty());
    let mut i: usize = 0;
    while i < answers.len()
        invariant
            i <= answers@.len(),
            late_tickets(answers@.take(i as int)) == Ok::<Seq<Uuid>, RefundError>(late@),
        decreases answers@.len() - i,
    {
        assert(answers@.take(i + 1).drop_last() =~= answers@.take(i as int));
        let answer = answers[i];
        match answer.1 {
            Registered::Done => {},
            Registered::RosterFixed => {
                late.push(answer.0);
            },
            Registered::Refused => {
                proof {
                    late_fault_is_final(answers@, i + 1);
                }
                return Err(RefundError::CannotRegister(answer.0));
            },
        }
        i = i + 1;
    }
    assert(answers@.take(i as int) =~= answers@);
    Ok(late)
}

/// What is to be done next for a refund.
#[derive(Clone, Copy, PartialEq, Eq, Structural, Debug)]
pub enum RefundStep {
    /// Nothing was minted: mint a swap, if the escrow is unspent.
    Mint,
    /// A swap is minted: recall it, and see where the escrow went.
    Recall,
    /// Arkade has it: finish it from what was kept.
    Resume,
    /// The escrow is in the swap: pay the player.
    Pay,
    /// It is done.
    Done,
}

/// What is to be done next for a refund.
pub open spec fn next_refund_step(refund: Option<TicketArkRefund>) -> RefundStep {
    match refund {
        None => RefundStep::Mint,
        Some(refund) => match refund.state {
            ArkRefundState::Minted => RefundStep::Recall,
            ArkRefundState::Submitting => RefundStep::Resume,
            ArkRefundState::Submitted | ArkRefundState::Paid => RefundStep::Pay,
            ArkRefundState::Settled => RefundStep::Done,
        },
    }
}

/// What is to be done next for a refund. Whatever is done before, the player is paid last.
pub fn refund_ark_escrow(refund: &Option<TicketArkRefund>) -> (step: RefundStep)
    ensures
        step == next_refund_step(*refund),
{
    match refund {
        None => RefundStep::Mint,
        Some(refund) => match refund.state {
            ArkRefundState::Minted => RefundStep::Recall,
            ArkRefundState::Submitting => RefundStep::Resume,
            ArkRefundState::Submitted | ArkRefundState::Paid => RefundStep::Pay,
            ArkRefundState::Settled => RefundStep::Done,
        },
    }
}

/// Where an escrow's output went.
#[derive(Clone, Copy, PartialEq, Eq, Structural, Debug)]
pub enum EscrowSpend {
    Unspent,
    /// Into this refund's swap.
    ByRefund,
    Elsewhere,
}

/// Where an escrow's output went: nowhere yet, into the refund, by its checkpoint or its Ark
/// transaction, or somewhere else.
pub open spec fn spend_of(listed: ListedVtxo, ark_txid: Seq<u8>, checkpoint_txid: Seq<u8>) -> EscrowSpend {
    if !listed.is_spent {
        EscrowSpend::Unspent
    } else if bytes_view(listed.ark_txid) == Some(ark_txid) || bytes_view(listed.spent_by) == Some(
        checkpoint_txid,
    ) {
        EscrowSpend::ByRefund
    } else {
        EscrowSpend::Elsewhere
    }
}

/// Whether the id is there, and the same.
fn is_txid(found: &Option<Vec<u8>>, txid: &Vec<u8>) -> (same: bool)
    ensures
        same == (bytes_view(*found) == Some(txid@)),
{
    match found {
        Some(found) => same_bytes(found, txid),
        None => false,
    }
}

/// Where an escrow's output went.
pub fn escrow_spend(listed: &ListedVtxo, ark_txid: &Vec<u8>, checkpoint_txid: &Vec<u8>) -> (spend:
    EscrowSpend)
    ensures
        spend == spend_of(*listed, ark_txid@, checkpoint_txid@),
{
    if !listed.is_spent {
        return EscrowSpend::Unspent;
    }
    if is_txid(&listed.ark_txid, ark_txid) || is_txid(&listed.spent_by, checkpoint_txid) {
        EscrowSpend::ByRefund
    } else {
        EscrowSpend::Elsewhere
    }
}

/// The first listed output that is the escrow's, from the `from`th on.
pub open spec fn listed_at(listed: Seq<ListedVtxo>, outpoint: (Seq<u8>, u32), from: int) -> Option<int>
    decreases listed.len() - from,
{
    if from < 0 || from >= listed.len() {
        None
    } else if output_view(listed[from].outpoint) == outpoint {
        Some(from)
    } else {
        listed_at(listed, outpoint, from + 1)
    }
}

/// The escrow's output, as Arkade lists it at the escrow's address.
pub fn listed_escrow(listed: &Vec<ListedVtxo>, outpoint: &OutPoint) -> (found: Result<
    usize,
    RefundError,
>)
    ensures
        match listed_at(listed@, output_view(*outpoint), 0) {
            Some(at) => found matches Ok(found) && found == at && found < listed@.len()
                && output_view(listed@[found as int].outpoint) == output_view(*outpoint),
            None => found == Err::<usize, RefundError>(RefundError::NotListed),
        },
{
    let mut i: usize = 0;
    while i < listed.len()
        invariant
            i <= listed@.len(),
            listed_at(listed@, output_view(*outpoint), 0) == listed_at(
                listed@,
                output_view(*outpoint),
                i as int,
            ),
        decreases listed@.len() - i,
    {
        if listed[i].outpoint.vout == outpoint.vout && same_bytes(
            &listed[i].outpoint.txid,
            &outpoint.txid,
        ) {
            return Ok(i);
        }
        i = i + 1;
    }
    Err(RefundError::NotListed)
}

/// Check that a refund can be minted at all: nothing was ever submitted for the escrow, so it has to
/// be unspent.
pub fn check_unspent(listed: &ListedVtxo) -> (checked: Result<(), RefundError>)
    ensures
        checked == if listed.is_spent {
            Err::<(), RefundError>(RefundError::SpentElsewhere)
        } else {
            Ok::<(), RefundError>(())
        },
{
    if listed.is_spent {
        return Err(RefundError::SpentElsewhere);
    }
    Ok(())
}

/// How long a refund's swap waits for its payment, in seconds.
pub const SWAP_DEADLINE: i64 = 3600;

/// How much later than the soonest deadline that is signed for a swap's deadline has to be, in
/// seconds.
pub const STALE_MARGIN: u64 = 300;

/// How much longer an invoice has to be good for, in seconds.
pub const INVOICE_MARGIN: u64 = 120;

/// How often a refund that keeps failing is minted again at most, in seconds.
pub const REMINT_INTERVAL: i64 = 3600;

/// What a refund is minted for.
#[derive(Clone, Copy, PartialEq, Eq, Structural, Debug)]
pub struct MintTerms {
    pub fee_sats: u64,
    pub owed_msat: u64,
    /// In UNIX seconds.
    pub deadline: u32,
}

/// The fee of a refund: as much as is allowed, as long as the player gets something.
pub open spec fn refund_fee(sats: u64, max_fee_sats: u64) -> int {
    let most = if sats == 0 {
        0int
    } else {
        sats - 1
    };
    if max_fee_sats < most {
        max_fee_sats as int
    } else {
        most
    }
}

/// What a refund is minted for: an invoice of what the escrow holds, less the fee.
pub fn mint_terms(sats: u64, max_fee_sats: u64, now: i64) -> (terms: Result<MintTerms, RefundError>)
    requires
        now <= i64::MAX - SWAP_DEADLINE,
    ensures
        ({
            let fee = refund_fee(sats, max_fee_sats);
            let owed = (sats - fee) * 1000;
            if sats - fee <= 0 || owed > u64::MAX {
                terms == Err::<MintTerms, RefundError>(RefundError::NothingLeft)
            } else if !(0 <= now + SWAP_DEADLINE <= u32::MAX) {
                terms == Err::<MintTerms, RefundError>(RefundError::ClockOutOfRange)
            } else {
                terms == Ok::<MintTerms, RefundError>(
                    MintTerms {
                        fee_sats: fee as u64,
                        owed_msat: owed as u64,
                        deadline: (now + SWAP_DEADLINE) as u32,
                    },
                )
            }
        }),
{
    let most: u64 = if sats == 0 {
        0
    } else {
        sats - 1
    };
    let fee_sats: u64 = if max_fee_sats < most {
        max_fee_sats
    } else {
        most
    };
    let owed: u64 = sats - fee_sats;
    if owed == 0 {
        return Err(RefundError::NothingLeft);
    }
    let owed_msat: u64 = match owed.checked_mul(1000) {
        Some(msat) => msat,
        None => {
            return Err(RefundError::NothingLeft);
        },
    };
    let deadline: i64 = now + SWAP_DEADLINE;
    if deadline < 0 || deadline > u32::MAX as i64 {
        return Err(RefundError::ClockOutOfRange);
    }
    Ok(MintTerms { fee_sats, owed_msat, deadline: deadline as u32 })
}

/// A refund as it is minted.
pub fn minted_refund(
    ticket_id: Uuid,
    refund_id: Uuid,
    invoice: String,
    payment_hash: String,
    fee_sats: u64,
    now: i64,
) -> (refund: TicketArkRefund)
    ensures
        refund == (TicketArkRefund {
            ticket_id,
            refund_id,
            invoice,
            payment_hash,
            fee_sats,
            state: ArkRefundState::Minted,
            ark_txid: None,
            checkpoint_psbt: None,
            error: None,
            created_at: now,
            updated_at: now,
        }),
{
    TicketArkRefund {
        ticket_id,
        refund_id,
        invoice,
        payment_hash,
        fee_sats,
        state: ArkRefundState::Minted,
        ark_txid: None,
        checkpoint_psbt: None,
        error: None,
        created_at: now,
        updated_at: now,
    }
}

/// The present, in UNIX seconds, where it is not before the epoch.
pub open spec fn present(now: i64) -> int {
    if now < 0 {
        0
    } else {
        now as int
    }
}

/// A minted refund can no longer be signed: its swap's deadline, or its invoice's expiry, is too
/// close. `soonest` is how far off a deadline has to be that is signed for, in seconds.
pub open spec fn staleness(invoice: Seq<char>, deadline: u32, soonest: u32, now: i64) -> Result<
    bool,
    RefundError,
> {
    match bolt11(invoice) {
        Err(_) => Err(RefundError::InvalidInvoice),
        Ok((_, _, expires_at)) => Ok(
            deadline < present(now) + soonest + STALE_MARGIN || (expires_at matches Some(at) && at
                < present(now) + INVOICE_MARGIN),
        ),
    }
}

/// Whether a minted refund can no longer be signed.
pub fn is_stale(invoice: &String, deadline: u32, soonest: u32, now: i64) -> (stale: Result<
    bool,
    RefundError,
>)
    ensures
        stale == staleness(invoice@, deadline, soonest, now),
{
    let read = match read_bolt11(invoice.as_str()) {
        Ok(read) => read,
        Err(_) => {
            return Err(RefundError::InvalidInvoice);
        },
    };
    let from: u64 = if now < 0 {
        0
    } else {
        now as u64
    };
    let soonest_deadline: u64 = from + soonest as u64 + STALE_MARGIN;
    Ok((deadline as u64) < soonest_deadline || read.would_expire(from + INVOICE_MARGIN))
}

/// What a minted refund goes on with.
#[derive(Clone, Copy, PartialEq, Eq, Structural, Debug)]
pub enum MintedStep {
    /// Sign it and submit it.
    Submit,
    /// Mint it again, and then sign that and submit it.
    Remint,
}

/// What a minted refund goes on with, by where its escrow went.
pub open spec fn after_recall(
    spend: EscrowSpend,
    stale: Result<bool, RefundError>,
    created_at: i64,
    now: i64,
) -> Result<MintedStep, RefundError> {
    match spend {
        EscrowSpend::ByRefund => Err(RefundError::SpentByRefund),
        EscrowSpend::Elsewhere => Err(RefundError::SpentElsewhere),
        EscrowSpend::Unspent => match stale {
            Err(error) => Err(error),
            Ok(false) => Ok(MintedStep::Submit),
            Ok(true) => if now < created_at + REMINT_INTERVAL {
                Err(RefundError::MintedAgainFrom((created_at + REMINT_INTERVAL) as i64))
            } else {
                Ok(MintedStep::Remint)
            },
        },
    }
}

/// What a minted refund goes on with. Unless its escrow is unspent, the player is not paid: paying
/// for a swap that the service may never be able to take could pay them twice. A stale one is minted
/// again, but only so often. `stale` is whether it can no longer be signed.
pub fn refund_was_recalled(
    spend: EscrowSpend,
    stale: Result<bool, RefundError>,
    created_at: i64,
    now: i64,
) -> (step: Result<MintedStep, RefundError>)
    requires
        created_at <= i64::MAX - REMINT_INTERVAL,
    ensures
        step == after_recall(spend, stale, created_at, now),
{
    match spend {
        EscrowSpend::ByRefund => Err(RefundError::SpentByRefund),
        EscrowSpend::Elsewhere => Err(RefundError::SpentElsewhere),
        EscrowSpend::Unspent => match stale {
            Err(error) => Err(error),
            Ok(false) => Ok(MintedStep::Submit),
            Ok(true) => if now < created_at + REMINT_INTERVAL {
                Err(RefundError::MintedAgainFrom(created_at + REMINT_INTERVAL))
            } else {
                Ok(MintedStep::Remint)
            },
        },
    }
}

/// What an interrupted refund is finished from: the Ark transaction's id, and the checkpoint.
#[derive(Debug)]
pub struct KeptSubmission {
    pub ark_txid: Vec<u8>,
    pub checkpoint_psbt: Vec<u8>,
}

/// What is recorded of a submission, to finish the refund from: the Ark transaction's id as text, and
/// the checkpoint in hexadecimal.
pub fn kept_submission(kept: &KeptSubmission) -> (recorded: (String, String))
    requires
        kept.ark_txid@.len() == 32,
    ensures
        recorded.0@ == txid_text(kept.ark_txid@),
        recorded.1@ == hex_text(kept.checkpoint_psbt@),
        resumes_from(recorded.0@, recorded.1@) == if is_psbt_encoding(kept.checkpoint_psbt@) {
            Ok::<(Seq<u8>, Seq<u8>), RefundError>((kept.ark_txid@, kept.checkpoint_psbt@))
        } else {
            Err::<(Seq<u8>, Seq<u8>), RefundError>(RefundError::InvalidCheckpoint)
        },
{
    proof {
        txids_read_back(kept.ark_txid@);
        hex_round_trips(kept.checkpoint_psbt@);
    }
    (txid_to_string(&kept.ark_txid), hex_encode(&kept.checkpoint_psbt))
}

/// What a refund is finished from, by what was recorded of its submission.
pub open spec fn resumes_from(txid: Seq<char>, psbt: Seq<char>) -> Result<
    (Seq<u8>, Seq<u8>),
    RefundError,
> {
    match named_transaction(txid) {
        None => Err(RefundError::InvalidTxid),
        Some(id) => if is_hex(psbt) && is_psbt_encoding(hex_bytes(psbt)) {
            Ok((id, hex_bytes(psbt)))
        } else {
            Err(RefundError::InvalidCheckpoint)
        },
    }
}

/// What an interrupted refund is finished from: what was kept of it, so that nothing is signed
/// again.
pub fn resume_refund(refund: &TicketArkRefund) -> (kept: Result<KeptSubmission, RefundError>)
    ensures
        match (refund.ark_txid, refund.checkpoint_psbt) {
            (Some(txid), Some(psbt)) => match resumes_from(txid@, psbt@) {
                Ok((id, checkpoint)) => kept matches Ok(kept) && kept.ark_txid@ == id
                    && kept.checkpoint_psbt@ == checkpoint,
                Err(fault) => kept matches Err(error) && error == fault,
            },
            _ => kept matches Err(error) && error is NoCheckpoint,
        },
{
    let txid = match &refund.ark_txid {
        Some(txid) => txid,
        None => {
            return Err(RefundError::NoCheckpoint);
        },
    };
    let psbt = match &refund.checkpoint_psbt {
        Some(psbt) => psbt,
        None => {
            return Err(RefundError::NoCheckpoint);
        },
    };
    let ark_txid = match txid_from_str(txid.as_str()) {
        Some(txid) => txid,
        None => {
            return Err(RefundError::InvalidTxid);
        },
    };
    match hex_decode(psbt.as_str()) {
        Some(checkpoint_psbt) => if is_psbt(&checkpoint_psbt) {
            Ok(KeptSubmission { ark_txid, checkpoint_psbt })
        } else {
            Err(RefundError::InvalidCheckpoint)
        },
        None => Err(RefundError::InvalidCheckpoint),
    }
}

/// What a refund's player is paid, in satoshis.
pub open spec fn refunded(sats: u64, fee_sats: u64) -> int {
    if sats > fee_sats {
        sats - fee_sats
    } else {
        0
    }
}

/// How a refund's player is paid.
#[derive(Debug)]
pub struct RefundPayment {
    /// The hash to look the payment up by, in hexadecimal.
    pub payment_hash: String,
    pub owed_sats: u64,
}

/// How a refund's player is paid: by the invoice, what the escrow holds less the fee.
pub fn refund_payment(refund: &TicketArkRefund, sats: u64) -> (payment: Result<
    RefundPayment,
    RefundError,
>)
    ensures
        match invoice_hash(refund.invoice@) {
            Some(hash) => payment matches Ok(payment) && payment.payment_hash@ == hash
                && payment.owed_sats == refunded(sats, refund.fee_sats),
            None => payment matches Err(error) && error is InvalidInvoice,
        },
{
    match extract_payment_hash_from_invoice(refund.invoice.as_str()) {
        Some(payment_hash) => Ok(
            RefundPayment {
                payment_hash,
                owed_sats: if sats > refund.fee_sats {
                    sats - refund.fee_sats
                } else {
                    0
                },
            },
        ),
        None => Err(RefundError::InvalidInvoice),
    }
}

/// The payment is not known to be made.
pub open spec fn is_unpaid(looked_up: Option<PaymentStatus>) -> bool {
    looked_up != Some(PaymentStatus::Succeeded)
}

/// Whether a refund's invoice is still to be paid: only where it is not known to be paid. `looked_up`
/// is what the Lightning node tells of it, where it could be asked.
pub fn must_send_payment(looked_up: Option<PaymentStatus>) -> (must: bool)
    ensures
        must == is_unpaid(looked_up),
{
    match looked_up {
        Some(status) => status != PaymentStatus::Succeeded,
        None => true,
    }
}

/// The preimage that takes a refund's swap, once the payment has settled, or why there is none yet.
pub open spec fn claim_of(status: PaymentStatus, preimage: Option<String>) -> Result<
    Seq<u8>,
    RefundError,
> {
    if status != PaymentStatus::Succeeded {
        Err(RefundError::Unsettled)
    } else {
        match preimage {
            None => Err(RefundError::NoProof),
            Some(text) => if is_hex(text@) && text@.len() == 64 {
                Ok(hex_bytes(text@))
            } else {
                Err(RefundError::InvalidProof)
            },
        }
    }
}

/// The preimage that takes a refund's swap, once the payment has settled.
pub fn payment_was_settled(status: PaymentStatus, preimage: &Option<String>) -> (claim: Result<
    Vec<u8>,
    RefundError,
>)
    ensures
        match claim_of(status, *preimage) {
            Ok(expected) => claim matches Ok(claim) && claim@ == expected,
            Err(error) => claim matches Err(told) && told == error,
        },
{
    if status != PaymentStatus::Succeeded {
        return Err(RefundError::Unsettled);
    }
    match preimage {
        None => Err(RefundError::NoProof),
        Some(text) => match hex_decode(text.as_str()) {
            Some(bytes) => if bytes.len() == 32 {
                Ok(bytes)
            } else {
                Err(RefundError::InvalidProof)
            },
            None => Err(RefundError::InvalidProof),
        },
    }
}

/// What a player is told of their refund.
#[derive(Debug)]
pub struct TicketRefund {
    /// minted, submitting, submitted, paid, or settled.
    pub state: String,
    /// What the player is paid, after the swap service's fee.
    pub paid_sats: u64,
    /// The Arkade transaction that moved the escrow into the swap.
    pub ark_txid: Option<String>,
    /// The invoice that the refund pays, from the player's Lightning address.
    pub invoice: String,
    pub payment_hash: String,
    /// In UNIX seconds.
    pub updated_at: i64,
}

/// What a player is told of the refund of their own ticket, once there is one. `ticket` is the one
/// with the id that they asked for.
pub fn get_ticket_refund(
    ticket: &Option<Ticket>,
    user_pubkey: &String,
    competition_id: Uuid,
    refund: Option<TicketArkRefund>,
    escrow: &Option<TicketArkEscrow>,
) -> (told: Result<Option<TicketRefund>, RequestError>)
    ensures
        match *ticket {
            None => told matches Err(error) && error is TicketNotFound,
            Some(ticket) => match ticket.belongs(user_pubkey@, competition_id) {
                Err(error) => told matches Err(fault) && fault == error,
                Ok(_) => match refund {
                    None => told matches Ok(None),
                    Some(refund) => told matches Ok(Some(told)) && {
                        let sats: u64 = match *escrow {
                            Some(escrow) => match escrow.vtxo_sats {
                                Some(sats) => sats,
                                None => 0,
                            },
                            None => 0,
                        };
                        &&& told.state@ == refund.state.word()
                        &&& told.paid_sats == refunded(sats, refund.fee_sats)
                        &&& told.ark_txid == refund.ark_txid
                        &&& told.invoice == refund.invoice
                        &&& told.payment_hash == refund.payment_hash
                        &&& told.updated_at == refund.updated_at
                    },
                },
            },
        },
{
    let ticket = match ticket {
        Some(ticket) => ticket,
        None => {
            return Err(RequestError::TicketNotFound);
        },
    };
    match ticket.check_holder(user_pubkey, competition_id) {
        Ok(_) => {},
        Err(error) => {
            return Err(error);
        },
    }
    let refund = match refund {
        Some(refund) => refund,
        None => {
            return Ok(None);
        },
    };
    let sats: u64 = match escrow {
        Some(escrow) => match escrow.vtxo_sats {
            Some(sats) => sats,
            None => 0,
        },
        None => 0,
    };
    let paid_sats: u64 = if sats > refund.fee_sats {
        sats - refund.fee_sats
    } else {
        0
    };
    Ok(
        Some(
            TicketRefund {
                state: refund.state.as_str().to_owned(),
                paid_sats,
                ark_txid: refund.ark_txid,
                invoice: refund.invoice,
                payment_hash: refund.payment_hash,
                updated_at: refund.updated_at,
            },
        ),
    )
}

/// The escrow still has to be given back: it holds a paid ticket's buy-in, the competition is dead,
/// no batch has funded its pool, and its refund is not done.
pub open spec fn is_owed_back(
    competition: Competition,
    pool_funded: bool,
    ticket: Ticket,
    escrow: TicketArkEscrow,
    refund: Option<TicketArkRefund>,
) -> bool {
    &&& competition.cancelled_at is Some || competition.failed_at is Some
    &&& !pool_funded
    &&& ticket.paid_at is Some
    &&& escrow.ticket_id == ticket.id
    &&& escrow.ticket_hash@ == ticket.hash@
    &&& escrow.funded_at is Some
    &&& refund matches Some(refund) ==> !(refund.state is Settled)
}

/// Whether an escrow still has to be given back.
pub fn is_refundable_ark_escrow(
    competition: &Competition,
    pool_funded: bool,
    ticket: &Ticket,
    escrow: &TicketArkEscrow,
    refund: &Option<TicketArkRefund>,
) -> (owed: bool)
    ensures
        owed == is_owed_back(*competition, pool_funded, *ticket, *escrow, *refund),
{
    if !(competition.is_cancelled() || competition.is_failed()) || pool_funded {
        return false;
    }
    if ticket.paid_at.is_none() || escrow.ticket_id != ticket.id || escrow.ticket_hash
        != ticket.hash || escrow.funded_at.is_none() {
        return false;
    }
    match refund {
        Some(refund) => refund.state != ArkRefundState::Settled,
        None => true,
    }
}

/// A ticket's escrow, with what is recorded of its refund.
#[derive(Debug)]
pub struct HeldEscrow {
    pub ticket: Ticket,
    pub escrow: TicketArkEscrow,
    pub refund: Option<TicketArkRefund>,
}

/// Which of the first `upto` escrows still have to be given back, by their indices, in order.
pub open spec fn owed_back(
    competition: Competition,
    pool_funded: bool,
    held: Seq<HeldEscrow>,
    upto: int,
) -> Seq<usize>
    decreases upto,
{
    if upto <= 0 {
        Seq::empty()
    } else {
        let fewer = owed_back(competition, pool_funded, held, upto - 1);
        let last = held[upto - 1];
        if is_owed_back(competition, pool_funded, last.ticket, last.escrow, last.refund) {
            fewer.push((upto - 1) as usize)
        } else {
            fewer
        }
    }
}

/// Which of a competition's escrows still have to be given back, by their indices, in order.
pub fn refundable_ark_escrows(
    competition: &Competition,
    pool_funded: bool,
    held: &Vec<HeldEscrow>,
) -> (owed: Vec<usize>)
    ensures
        owed@ == owed_back(*competition, pool_funded, held@, held@.len() as int),
{
    let mut owed: Vec<usize> = Vec::new();
    let mut i: usize = 0;
    while i < held.len()
        invariant
            i <= held@.len(),
            owed@ == owed_back(*competition, pool_funded, held@, i as int),
        decreases held@.len() - i,
    {
        let one = &held[i];
        if is_refundable_ark_escrow(
            competition,
            pool_funded,
            &one.ticket,
            &one.escrow,
            &one.refund,
        ) {
            owed.push(i);
        }
        i = i + 1;
    }
    owed
}

/// A refund never signs a second spend of its escrow: what is signed is a refund that is minted and
/// whose escrow Arkade lists as unspent, and a refund that was submitted is only finished and paid.
pub proof fn escrows_are_spent_once(
    refund: TicketArkRefund,
    listed: ListedVtxo,
    ark_txid: Seq<u8>,
    checkpoint_txid: Seq<u8>,
    stale: Result<bool, RefundError>,
    now: i64,
)
    ensures
        next_refund_step(Some(refund)) is Recall ==> refund.state is Minted,
        refund.state.rank() >= 1 ==> !(next_refund_step(Some(refund)) is Mint) && !(
        next_refund_step(Some(refund)) is Recall),
        after_recall(spend_of(listed, ark_txid, checkpoint_txid), stale, refund.created_at, now)
            is Ok ==> !listed.is_spent,
{
}

/// A refund that is done stays done, and one that is not is carried on from where it is: each step
/// of a refund moves its state on, and none moves it back.
pub proof fn refunds_only_move_on(refund: TicketArkRefund)
    ensures
        next_refund_step(Some(refund)) is Done <==> refund.state is Settled,
        next_refund_step(Some(refund)) is Recall ==> refund.state.rank()
            < ArkRefundState::Submitting.rank(),
        next_refund_step(Some(refund)) is Resume ==> refund.state.rank()
            < ArkRefundState::Submitted.rank(),
        next_refund_step(Some(refund)) is Pay ==> refund.state.rank()
            < ArkRefundState::Settled.rank(),
{
}

/// What a player is refunded and the fee are together what their escrow holds, the fee is no more
/// than is allowed, and the player gets something, where the escrow holds anything.
pub proof fn refunds_are_complete(sats: u64, max_fee_sats: u64)
    ensures
        0 <= refund_fee(sats, max_fee_sats) <= max_fee_sats,
        refunded(sats, refund_fee(sats, max_fee_sats) as u64) + refund_fee(sats, max_fee_sats) == sats,
        sats > 0 ==> refunded(sats, refund_fee(sats, max_fee_sats) as u64) > 0,
{
}

/// What is recorded of a refund comes of what was recorded before: nothing changed, it was minted, it
/// was minted again while nothing was signed, or its next step was done and it moved on.
pub open spec fn refund_follows(
    before: Option<TicketArkRefund>,
    after: Option<TicketArkRefund>,
) -> bool {
    ||| after == before
    ||| next_refund_step(before) is Mint && exists|minted: TicketArkRefund|
        minted.state is Minted && #[trigger] stored_refund(before, minted) == after
    ||| exists|stale_id: Uuid, fresh: TicketArkRefund|
        fresh.state is Minted && #[trigger] is_replaced(before, stale_id, fresh) && after == Some(
            fresh,
        )
    ||| before matches Some(refund) && exists|
        state: ArkRefundState,
        ark_txid: Option<String>,
        checkpoint_psbt: Option<String>,
        error: Option<String>,
        now: i64,
    |
        moves_on_to(next_refund_step(before), state) && after == Some(
            #[trigger] advanced(refund, state, ark_txid, checkpoint_psbt, error, now),
        )
}

/// Doing the step leads to the state: signing and submitting a minted refund, finishing a submitted
/// one, and paying its player.
pub open spec fn moves_on_to(step: RefundStep, state: ArkRefundState) -> bool {
    match step {
        RefundStep::Recall => state is Submitting,
        RefundStep::Resume => state is Submitted,
        RefundStep::Pay => state is Paid || state is Settled,
        RefundStep::Mint | RefundStep::Done => false,
    }
}

/// Between the two, a spend of the escrow was signed and submitted.
pub open spec fn is_spent_between(
    before: Option<TicketArkRefund>,
    after: Option<TicketArkRefund>,
) -> bool {
    must_be_signed(before) && !must_be_signed(after)
}

/// How far a refund has come.
spec fn progress(refund: Option<TicketArkRefund>) -> int {
    match refund {
        None => -1,
        Some(refund) => refund.state.rank(),
    }
}

/// A refund never falls back.
proof fn refunds_never_fall_back(history: Seq<Option<TicketArkRefund>>, from: int, to: int)
    requires
        0 <= from <= to < history.len(),
        forall|i: int|
            0 <= i < history.len() - 1 ==> refund_follows(#[trigger] history[i], history[i + 1]),
    ensures
        progress(history[from]) <= progress(history[to]),
    decreases to - from,
{
    if from < to {
        refunds_never_fall_back(history, from, to - 1);
        assert(refund_follows(history[to - 1], history[to - 1 + 1]));
    }
}

/// However often a refund is interrupted and taken up again, its escrow is spent at most once: after
/// it was, no later step signs anything. And once a refund is settled it stays settled, with nothing
/// left to mint, sign, finish or pay.
pub proof fn a_refund_runs_through_once(history: Seq<Option<TicketArkRefund>>, at: int, later: int)
    requires
        0 <= at < later < history.len(),
        forall|i: int|
            0 <= i < history.len() - 1 ==> refund_follows(#[trigger] history[i], history[i + 1]),
    ensures
        is_spent_between(history[at], history[at + 1]) ==> !must_be_signed(history[later]),
        next_refund_step(history[at]) is Done ==> next_refund_step(history[later]) is Done,
{
    refunds_never_fall_back(history, at + 1, later);
    refunds_never_fall_back(history, at, later);
}

/// A refund that nothing interrupts is minted, signed, finished and paid, each once and in this
/// order, and is then done. A payment that is known to be made is not sent again.
pub proof fn a_refund_takes_each_step_once(
    minted: TicketArkRefund,
    ark_txid: Option<String>,
    checkpoint_psbt: Option<String>,
    now: i64,
)
    requires
        minted.state is Minted,
    ensures
        ({
            let submitting = advanced(
                minted,
                ArkRefundState::Submitting,
                ark_txid,
                checkpoint_psbt,
                None,
                now,
            );
            let submitted = advanced(submitting, ArkRefundState::Submitted, None, None, None, now);
            let paid = advanced(submitted, ArkRefundState::Paid, None, None, None, now);
            let settled = advanced(paid, ArkRefundState::Settled, None, None, None, now);
            &&& next_refund_step(None) is Mint
            &&& stored_refund(None, minted) == Some(minted)
            &&& next_refund_step(Some(minted)) is Recall
            &&& next_refund_step(Some(submitting)) is Resume
            &&& submitting.ark_txid == told_or_kept(ark_txid, minted.ark_txid)
            &&& submitting.checkpoint_psbt == told_or_kept(checkpoint_psbt, minted.checkpoint_psbt)
            &&& next_refund_step(Some(submitted)) is Pay
            &&& next_refund_step(Some(paid)) is Pay
            &&& !is_unpaid(Some(PaymentStatus::Succeeded))
            &&& next_refund_step(Some(settled)) is Done
        }),
{
}

/// Once every refund of a competition is settled, a further run over its escrows finds none to
/// refund: nothing is minted, signed, finished or paid, and every refund stays as it is.
pub proof fn settled_refunds_are_left_alone(
    competition: Competition,
    pool_funded: bool,
    held: Seq<HeldEscrow>,
    minted: TicketArkRefund,
    stale_id: Uuid,
)
    requires
        forall|i: int|
            0 <= i < held.len() ==> ((#[trigger] held[i]).refund matches Some(refund)
                && refund.state is Settled),
    ensures
        owed_back(competition, pool_funded, held, held.len() as int) == Seq::<usize>::empty(),
        forall|i: int|
            0 <= i < held.len() ==> {
                let refund = (#[trigger] held[i]).refund;
                &&& next_refund_step(refund) is Done
                &&& !must_be_signed(refund)
                &&& stored_refund(refund, minted) == refund
                &&& !is_replaced(refund, stale_id, minted)
            },
{
    none_are_owed(competition, pool_funded, held, held.len() as int);
}

/// See `settled_refunds_are_left_alone`.
proof fn none_are_owed(
    competition: Competition,
    pool_funded: bool,
    held: Seq<HeldEscrow>,
    upto: int,
)
    requires
        upto <= held.len(),
        forall|i: int|
            0 <= i < held.len() ==> ((#[trigger] held[i]).refund matches Some(refund)
                && refund.state is Settled),
    ensures
        owed_back(competition, pool_funded, held, upto) == Seq::<usize>::empty(),
    decreases upto,
{
    if upto > 0 {
        none_are_owed(competition, pool_funded, held, upto - 1);
        assert(held[upto - 1].refund is Some);
    }
}

} // verus!
