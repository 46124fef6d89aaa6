//! The ledger of payouts: claims that winners have, the payments that are made for them, and what
//! is released when one is paid.
//!
//! Paying and releasing are recorded apart: what is left to release is released from the proof of
//! the payment that was made, and never by paying again.

use crate::competition::Uuid;
use crate::encoding::{hex_encode, hex_text, point_from_hex, point_of_hex};
use crate::entries::UserEntry;
use crate::sellback::{
    bolt11, key_check, opened, read_bolt11, verify_entry_key, verify_payout_preimage,
    PayoutRejection,
};
use vstd::prelude::*;

verus! {

/// Why the ledger refuses a change.
#[derive(Clone, Copy, PartialEq, Eq, Structural, Debug)]
pub enum LedgerError {
    /// Payouts over Lightning are closed, since the pot is about to be paid out on-chain.
    WindowClosed,
    /// The entry has a claim, or the claim's id is taken.
    ClaimExists,
    /// The entry has a payment that has not failed.
    LivePayment,
    /// The claim's id was used for another request.
    ClaimIdUsed,
    /// There is no such claim, or it is not in the state for this.
    NoSuchClaim,
    /// What was prepared for the claim is not what was prepared before.
    ClaimChanged,
    /// The invoice's payment hash is that of another payment.
    HashUsed,
    InvalidInvoice,
    /// The amount is too large to be stored.
    AmountOverflow,
    /// The entry's stored key is no point.
    InvalidStoredKey,
    /// The released key cannot be read.
    InvalidKey,
    /// The released key is not the entry's.
    WrongKey,
    /// The released preimage cannot be read.
    InvalidPreimage,
    /// The released preimage does not open the entry's payout hash.
    WrongPreimage,
    /// Other secrets were released before.
    SecretsChanged,
    /// The policy was fixed before, and this is another.
    PolicyFixed,
}

/// A claim: what a winner asked for, and how far it has come. Times are in UNIX seconds.
#[derive(Debug)]
pub struct PayoutJob {
    pub id: Uuid,
    pub entry_id: Uuid,
    pub event_id: Uuid,
    pub request_json: String,
    /// The receipt of what was prepared, with the payment that it is for.
    pub prepared_json: Option<String>,
    pub payout_id: Option<Uuid>,
    pub attempts: u32,
    pub created_at: i64,
    pub retry_at: i64,
    pub last_error: Option<String>,
    pub completed_at: Option<i64>,
    pub failed_at: Option<i64>,
}

/// A payment to a winner.
#[derive(Debug)]
pub struct Payout {
    pub id: Uuid,
    pub entry_id: Uuid,
    pub event_id: Uuid,
    pub payout_payment_request: String,
    pub payout_amount_sats: u64,
    /// The hash that the invoice pays to, in hexadecimal, where it is indexed.
    pub payment_hash: Option<String>,
    /// The proof of the payment.
    pub payment_preimage: Option<String>,
    pub initiated_at: i64,
    pub succeed_at: Option<i64>,
    pub failed_at: Option<i64>,
}

impl PayoutJob {
    /// The claim holds its entry's place: it has not failed.
    pub open spec fn is_live(self) -> bool {
        self.failed_at is None
    }

    /// Something is still to be done for the claim.
    pub open spec fn is_open(self) -> bool {
        self.completed_at is None && self.failed_at is None
    }
}

impl Payout {
    /// The payment was made, or still may be.
    pub open spec fn is_live(self) -> bool {
        self.failed_at is None
    }

    /// The payment is known to have failed for good.
    pub open spec fn is_lost(self) -> bool {
        self.failed_at is Some && self.succeed_at is None
    }

    /// The payment pays to the hash.
    pub open spec fn pays_to(self, hash: Seq<char>) -> bool {
        self.payment_hash matches Some(own) && own@ == hash
    }
}

/// The ledger: every claim, every payment, the events that are paid out automatically, and those of
/// them whose payouts over Lightning are closed.
#[derive(Debug)]
pub struct PayoutLedger {
    pub jobs: Vec<PayoutJob>,
    pub payouts: Vec<Payout>,
    pub automatic: Vec<Uuid>,
    pub closed: Vec<Uuid>,
}

impl Default for PayoutLedger {
    /// An empty ledger.
    fn default() -> (ledger: Self)
        ensures
            ledger.wf(),
            ledger.jobs@.len() == 0,
            ledger.payouts@.len() == 0,
            ledger.automatic@.len() == 0,
            ledger.closed@.len() == 0,
    {
        PayoutLedger {
            jobs: Vec::new(),
            payouts: Vec::new(),
            automatic: Vec::new(),
            closed: Vec::new(),
        }
    }
}

/// The first claim with the id from the `from`th on.
pub open spec fn job_with(jobs: Seq<PayoutJob>, id: Uuid, from: int) -> Option<int>
    decreases jobs.len() - from,
{
    if from < 0 || from >= jobs.len() {
        None
    } else if jobs[from].id == id {
        Some(from)
    } else {
        job_with(jobs, id, from + 1)
    }
}

/// The first payment with the id from the `from`th on.
pub open spec fn payout_with(payouts: Seq<Payout>, id: Uuid, from: int) -> Option<int>
    decreases payouts.len() - from,
{
    if from < 0 || from >= payouts.len() {
        None
    } else if payouts[from].id == id {
        Some(from)
    } else {
        payout_with(payouts, id, from + 1)
    }
}

/// The entry has a claim that has not failed.
pub open spec fn has_live_claim(jobs: Seq<PayoutJob>, entry_id: Uuid) -> bool {
    exists|i: int| 0 <= i < jobs.len() && (#[trigger] jobs[i]).entry_id == entry_id && jobs[i].is_live()
}

/// The entry has a payment that has not failed.
pub open spec fn has_live_payment(payouts: Seq<Payout>, entry_id: Uuid) -> bool {
    exists|i: int|
        0 <= i < payouts.len() && (#[trigger] payouts[i]).entry_id == entry_id
            && payouts[i].is_live()
}

/// A payment pays to the hash.
pub open spec fn hash_taken(payouts: Seq<Payout>, hash: Seq<char>) -> bool {
    exists|i: int| 0 <= i < payouts.len() && (#[trigger] payouts[i]).pays_to(hash)
}

/// The payment is known to have failed for good.
pub open spec fn payment_lost(payouts: Seq<Payout>, id: Uuid) -> bool {
    payout_with(payouts, id, 0) matches Some(at) && payouts[at].is_lost()
}

/// The claim can be given up for another: nothing was sent for it, or what was is lost.
pub open spec fn can_be_replaced(job: PayoutJob, payouts: Seq<Payout>) -> bool {
    job.is_open() && match job.payout_id {
        None => true,
        Some(payout_id) => payment_lost(payouts, payout_id),
    }
}

impl PayoutLedger {
    /// The ledger holds no claim or payment twice, no entry has two claims or two payments that
    /// have not failed, no two payments pay to one hash, and a claim's payment is its entry's.
    pub open spec fn wf(self) -> bool {
        &&& claims_are_single(self.jobs@)
        &&& payments_are_single(self.payouts@)
        &&& forall|i: int|
            0 <= i < self.jobs@.len() ==> ((#[trigger] self.jobs@[i]).payout_id matches Some(id)
                ==> payout_with(self.payouts@, id, 0) is Some && self.payouts@[payout_with(
                self.payouts@,
                id,
                0,
            )->0].entry_id == self.jobs@[i].entry_id)
    }

    /// Payouts over Lightning are closed for the event.
    pub open spec fn is_closed(self, event_id: Uuid) -> bool {
        self.closed@.contains(event_id)
    }
}

/// No claim is there twice, and no entry has two claims that have not failed.
pub open spec fn claims_are_single(jobs: Seq<PayoutJob>) -> bool {
    &&& forall|i: int, j: int|
        0 <= i < j < jobs.len() ==> (#[trigger] jobs[i]).id != (#[trigger] jobs[j]).id
    &&& forall|i: int, j: int|
        0 <= i < j < jobs.len() && (#[trigger] jobs[i]).is_live() && (#[trigger] jobs[j]).is_live()
            ==> jobs[i].entry_id != jobs[j].entry_id
}

/// No payment is there twice, no entry has two that have not failed, and no two pay to one hash.
pub open spec fn payments_are_single(payouts: Seq<Payout>) -> bool {
    &&& forall|i: int, j: int|
        0 <= i < j < payouts.len() ==> (#[trigger] payouts[i]).id != (#[trigger] payouts[j]).id
    &&& forall|i: int, j: int|
        0 <= i < j < payouts.len() && (#[trigger] payouts[i]).is_live() && (
        #[trigger] payouts[j]).is_live() ==> payouts[i].entry_id != payouts[j].entry_id
    &&& forall|i: int, j: int, hash: Seq<char>|
        #![trigger payouts[i].pays_to(hash), payouts[j].pays_to(hash)]
        0 <= i < j < payouts.len() && payouts[i].pays_to(hash) ==> !payouts[j].pays_to(hash)
}

/// Nothing but the claims is different.
pub open spec fn only_jobs_change(before: PayoutLedger, after: PayoutLedger) -> bool {
    after == (PayoutLedger { jobs: after.jobs, ..before })
}

/// A claim as it is made, with nothing done for it yet.
pub open spec fn is_new_claim(
    job: PayoutJob,
    id: Uuid,
    entry_id: Uuid,
    event_id: Uuid,
    request_json: String,
    now: i64,
) -> bool {
    job == (PayoutJob {
        id,
        entry_id,
        event_id,
        request_json,
        prepared_json: None,
        payout_id: None,
        attempts: 0,
        created_at: now,
        retry_at: now,
        last_error: None,
        completed_at: None,
        failed_at: None,
    })
}

/// The event is in the list.
fn is_listed(events: &Vec<Uuid>, event_id: Uuid) -> (listed: bool)
    ensures
        listed == events@.contains(event_id),
{
    let mut i: usize = 0;
    while i < events.len()
        invariant
            i <= events@.len(),
            forall|j: int| 0 <= j < i ==> events@[j] != event_id,
        decreases events@.len() - i,
    {
        if events[i] == event_id {
            assert(events@[i as int] == event_id);
            return true;
        }
        i = i + 1;
    }
    false
}

/// A claim as it is made, with nothing done for it yet.
fn new_claim(id: Uuid, entry_id: Uuid, event_id: Uuid, request_json: String, now: i64) -> (job: PayoutJob)
    ensures
        is_new_claim(job, id, entry_id, event_id, request_json, now),
{
    PayoutJob {
        id,
        entry_id,
        event_id,
        request_json,
        prepared_json: None,
        payout_id: None,
        attempts: 0,
        created_at: now,
        retry_at: now,
        last_error: None,
        completed_at: None,
        failed_at: None,
    }
}

impl PayoutLedger {
    /// Payouts over Lightning are closed for the event.
    pub fn payout_window_is_closed(&self, event_id: Uuid) -> (closed: bool)
        ensures
            closed == self.is_closed(event_id),
    {
        is_listed(&self.closed, event_id)
    }

    /// The event is paid out automatically.
    pub fn has_automatic_payouts(&self, event_id: Uuid) -> (automatic: bool)
        ensures
            automatic == self.automatic@.contains(event_id),
    {
        is_listed(&self.automatic, event_id)
    }

    /// Pay the event out automatically.
    pub fn enable_automatic_payouts(&mut self, event_id: Uuid)
        ensures
            *final(self) == (PayoutLedger { automatic: final(self).automatic, ..*old(self) }),
            final(self).automatic@ == if old(self).automatic@.contains(event_id) {
                old(self).automatic@
            } else {
                old(self).automatic@.push(event_id)
            },
    {
        if !is_listed(&self.automatic, event_id) {
            self.automatic.push(event_id);
        }
    }

    /// The entry has a claim that has not failed.
    pub fn has_live_payout_job(&self, entry_id: Uuid) -> (live: bool)
        ensures
            live == has_live_claim(self.jobs@, entry_id),
    {
        let mut i: usize = 0;
        while i < self.jobs.len()
            invariant
                i <= self.jobs@.len(),
                forall|j: int|
                    0 <= j < i ==> !((#[trigger] self.jobs@[j]).entry_id == entry_id
                        && self.jobs@[j].is_live()),
            decreases self.jobs@.len() - i,
        {
            if self.jobs[i].entry_id == entry_id && self.jobs[i].failed_at.is_none() {
                assert(self.jobs@[i as int].is_live());
                return true;
            }
            i = i + 1;
        }
        false
    }

    /// The entry has a payment that has not failed.
    pub fn has_live_payment(&self, entry_id: Uuid) -> (live: bool)
        ensures
            live == has_live_payment(self.payouts@, entry_id),
    {
        let mut i: usize = 0;
        while i < self.payouts.len()
            invariant
                i <= self.payouts@.len(),
                forall|j: int|
                    0 <= j < i ==> !((#[trigger] self.payouts@[j]).entry_id == entry_id
                        && self.payouts@[j].is_live()),
            decreases self.payouts@.len() - i,
        {
            if self.payouts[i].entry_id == entry_id && self.payouts[i].failed_at.is_none() {
                assert(self.payouts@[i as int].is_live());
                return true;
            }
            i = i + 1;
        }
        false
    }

    /// Something is still to be done for a claim of the event.
    pub fn has_unsettled_payout_jobs(&self, event_id: Uuid) -> (unsettled: bool)
        ensures
            unsettled == (exists|i: int|
                0 <= i < self.jobs@.len() && (#[trigger] self.jobs@[i]).event_id == event_id
                    && self.jobs@[i].is_open()),
    {
        let mut i: usize = 0;
        while i < self.jobs.len()
            invariant
                i <= self.jobs@.len(),
                forall|j: int|
                    0 <= j < i ==> !((#[trigger] self.jobs@[j]).event_id == event_id
                        && self.jobs@[j].is_open()),
            decreases self.jobs@.len() - i,
        {
            let job = &self.jobs[i];
            if job.event_id == event_id && job.completed_at.is_none() && job.failed_at.is_none() {
                assert(self.jobs@[i as int].is_open());
                return true;
            }
            i = i + 1;
        }
        false
    }

    /// The claim with the id.
    pub fn find_job(&self, id: Uuid) -> (found: Option<usize>)
        ensures
            match job_with(self.jobs@, id, 0) {
                Some(at) => found matches Some(found) && found == at && at < self.jobs@.len()
                    && self.jobs@[at].id == id,
                None => found is None,
            },
    {
        let mut i: usize = 0;
        while i < self.jobs.len()
            invariant
                i <= self.jobs@.len(),
                job_with(self.jobs@, id, 0) == job_with(self.jobs@, id, i as int),
            decreases self.jobs@.len() - i,
        {
            if self.jobs[i].id == id {
                return Some(i);
            }
            i = i + 1;
        }
        None
    }

    /// The payment with the id.
    pub fn find_payout(&self, id: Uuid) -> (found: Option<usize>)
        ensures
            match payout_with(self.payouts@, id, 0) {
                Some(at) => found matches Some(found) && found == at && at < self.payouts@.len()
                    && self.payouts@[at].id == id,
                None => found is None,
            },
    {
        let mut i: usize = 0;
        while i < self.payouts.len()
            invariant
                i <= self.payouts@.len(),
                payout_with(self.payouts@, id, 0) == payout_with(self.payouts@, id, i as int),
            decreases self.payouts@.len() - i,
        {
            if self.payouts[i].id == id {
                return Some(i);
            }
            i = i + 1;
        }
        None
    }

    /// A payment pays to the hash.
    pub(crate) fn is_hash_taken(&self, hash: &String) -> (taken: bool)
        ensures
            taken == hash_taken(self.payouts@, hash@),
    {
        let mut i: usize = 0;
        while i < self.payouts.len()
            invariant
                i <= self.payouts@.len(),
                forall|j: int| 0 <= j < i ==> !(#[trigger] self.payouts@[j]).pays_to(hash@),
            decreases self.payouts@.len() - i,
        {
            if let Some(own) = &self.payouts[i].payment_hash {
                if *own == *hash {
                    assert(self.payouts@[i as int].pays_to(hash@));
                    return true;
                }
            }
            i = i + 1;
        }
        false
    }

    /// The payment may be sent: payouts over Lightning are not closed for its event. One that is
    /// not known is not held back.
    pub fn payout_send_allowed(&self, payout_id: Uuid) -> (allowed: bool)
        ensures
            allowed == match payout_with(self.payouts@, payout_id, 0) {
                Some(at) => !self.is_closed(self.payouts@[at].event_id),
                None => true,
            },
    {
        match self.find_payout(payout_id) {
            Some(at) => !self.payout_window_is_closed(self.payouts[at].event_id),
            None => true,
        }
    }

    /// Whether a claim can be made.
    pub open spec fn claim_fault(self, id: Uuid, entry_id: Uuid, event_id: Uuid) -> Option<
        LedgerError,
    > {
        if self.is_closed(event_id) {
            Some(LedgerError::WindowClosed)
        } else if has_live_claim(self.jobs@, entry_id) || job_with(self.jobs@, id, 0) is Some {
            Some(LedgerError::ClaimExists)
        } else if has_live_payment(self.payouts@, entry_id) {
            Some(LedgerError::LivePayment)
        } else {
            None
        }
    }

    /// Make a claim for an entry, under a new id. An entry has one claim at a time, so only one of
    /// several who try to make it does.
    pub fn create_payout_job(
        &mut self,
        id: Uuid,
        entry_id: Uuid,
        event_id: Uuid,
        request_json: String,
        now: i64,
    ) -> (made: Result<Uuid, LedgerError>)
        requires
            old(self).wf(),
        ensures
            final(self).wf(),
            match old(self).claim_fault(id, entry_id, event_id) {
                Some(error) => made == Err::<Uuid, LedgerError>(error) && *final(self) == *old(self),
                None => {
                    &&& made == Ok::<Uuid, LedgerError>(id)
                    &&& only_jobs_change(*old(self), *final(self))
                    &&& final(self).jobs@.drop_last() == old(self).jobs@
                    &&& final(self).jobs@.len() == old(self).jobs@.len() + 1
                    &&& is_new_claim(
                        final(self).jobs@.last(),
                        id,
                        entry_id,
                        event_id,
                        request_json,
                        now,
                    )
                },
            },
    {
        if self.payout_window_is_closed(event_id) {
            return Err(LedgerError::WindowClosed);
        }
        if self.has_live_payout_job(entry_id) || self.find_job(id).is_some() {
            return Err(LedgerError::ClaimExists);
        }
        if self.has_live_payment(entry_id) {
            return Err(LedgerError::LivePayment);
        }
        let ghost before = self.jobs@;
        self.jobs.push(new_claim(id, entry_id, event_id, request_json, now));
        proof {
            absent_id(before, id, 0);
            assert(self.jobs@.drop_last() =~= before);
        }
        Ok(id)
    }
}

/// An id that no claim has from the `from`th on.
proof fn absent_id(jobs: Seq<PayoutJob>, id: Uuid, from: int)
    requires
        0 <= from,
        job_with(jobs, id, from) is None,
    ensures
        forall|i: int| from <= i < jobs.len() ==> (#[trigger] jobs[i]).id != id,
    decreases jobs.len() - from,
{
    if from < jobs.len() {
        absent_id(jobs, id, from + 1);
    }
}

/// The claims after those of an entry that can be replaced were given up.
pub open spec fn given_up(
    jobs: Seq<PayoutJob>,
    payouts: Seq<Payout>,
    entry_id: Uuid,
    now: i64,
) -> Seq<PayoutJob> {
    jobs.map_values(
        |job: PayoutJob|
            if job.entry_id == entry_id && can_be_replaced(job, payouts) {
                PayoutJob { failed_at: Some(now), ..job }
            } else {
                job
            },
    )
}

impl PayoutLedger {
    /// What comes of a winner's own invoice: nothing new where it was asked for before, or a claim
    /// in place of the one that the entry had.
    pub open spec fn fallback_outcome(
        self,
        id: Uuid,
        entry_id: Uuid,
        event_id: Uuid,
        request_json: Seq<char>,
        now: i64,
    ) -> Result<bool, LedgerError> {
        if self.is_closed(event_id) {
            Err(LedgerError::WindowClosed)
        } else {
            match job_with(self.jobs@, id, 0) {
                Some(at) => if self.jobs@[at].entry_id == entry_id && self.jobs@[at].request_json@
                    == request_json {
                    Ok(false)
                } else {
                    Err(LedgerError::ClaimIdUsed)
                },
                None => if has_live_payment(self.payouts@, entry_id) {
                    Err(LedgerError::LivePayment)
                } else if has_live_claim(
                    given_up(self.jobs@, self.payouts@, entry_id, now),
                    entry_id,
                ) {
                    Err(LedgerError::ClaimExists)
                } else {
                    Ok(true)
                },
            }
        }
    }

    /// The claim can be given up for another.
    fn is_replaceable(&self, at: usize) -> (replaceable: bool)
        requires
            at < self.jobs@.len(),
        ensures
            replaceable == can_be_replaced(self.jobs@[at as int], self.payouts@),
    {
        let job = &self.jobs[at];
        if job.completed_at.is_some() || job.failed_at.is_some() {
            return false;
        }
        match job.payout_id {
            None => true,
            Some(payout_id) => self.is_payment_lost(payout_id),
        }
    }

    /// The payment is known to have failed for good.
    fn is_payment_lost(&self, payout_id: Uuid) -> (lost: bool)
        ensures
            lost == payment_lost(self.payouts@, payout_id),
    {
        match self.find_payout(payout_id) {
            Some(at) => self.payouts[at].failed_at.is_some() && self.payouts[at].succeed_at.is_none(),
            None => false,
        }
    }

    /// A claim of the entry would stay, though those that can be replaced were given up.
    fn keeps_claim(&self, entry_id: Uuid, now: i64) -> (keeps: bool)
        ensures
            keeps == has_live_claim(given_up(self.jobs@, self.payouts@, entry_id, now), entry_id),
    {
        let ghost after = given_up(self.jobs@, self.payouts@, entry_id, now);
        let mut i: usize = 0;
        while i < self.jobs.len()
            invariant
                i <= self.jobs@.len(),
                after == given_up(self.jobs@, self.payouts@, entry_id, now),
                forall|j: int|
                    0 <= j < i ==> !((#[trigger] after[j]).entry_id == entry_id
                        && after[j].is_live()),
            decreases self.jobs@.len() - i,
        {
            if self.jobs[i].entry_id == entry_id && self.jobs[i].failed_at.is_none()
                && !self.is_replaceable(i) {
                assert(after[i as int].is_live());
                return true;
            }
            i = i + 1;
        }
        false
    }

    /// Queue a winner's own invoice under the id of its claim. It replaces a claim for which
    /// nothing was sent; once an invoice is in the ledger, only the failure of its payment makes
    /// room for another. The same request once more changes nothing.
    pub fn queue_invoice_fallback(
        &mut self,
        id: Uuid,
        entry_id: Uuid,
        event_id: Uuid,
        request_json: String,
        now: i64,
    ) -> (queued: Result<Uuid, LedgerError>)
        requires
            old(self).wf(),
        ensures
            final(self).wf(),
            match old(self).fallback_outcome(id, entry_id, event_id, request_json@, now) {
                Err(error) => queued == Err::<Uuid, LedgerError>(error) && *final(self)
                    == *old(self),
                Ok(false) => queued == Ok::<Uuid, LedgerError>(id) && *final(self) == *old(self),
                Ok(true) => {
                    &&& queued == Ok::<Uuid, LedgerError>(id)
                    &&& only_jobs_change(*old(self), *final(self))
                    &&& final(self).jobs@.len() == old(self).jobs@.len() + 1
                    &&& final(self).jobs@.drop_last() == given_up(
                        old(self).jobs@,
                        old(self).payouts@,
                        entry_id,
                        now,
                    )
                    &&& is_new_claim(
                        final(self).jobs@.last(),
                        id,
                        entry_id,
                        event_id,
                        request_json,
                        now,
                    )
                },
            },
    {
        if self.payout_window_is_closed(event_id) {
            return Err(LedgerError::WindowClosed);
        }
        if let Some(at) = self.find_job(id) {
            if self.jobs[at].entry_id == entry_id && self.jobs[at].request_json == request_json {
                return Ok(id);
            }
            return Err(LedgerError::ClaimIdUsed);
        }
        if self.has_live_payment(entry_id) {
            return Err(LedgerError::LivePayment);
        }
        if self.keeps_claim(entry_id, now) {
            return Err(LedgerError::ClaimExists);
        }
        let ghost before = self.jobs@;
        let ghost after = given_up(before, self.payouts@, entry_id, now);
        let mut i: usize = 0;
        while i < self.jobs.len()
            invariant
                i <= self.jobs@.len(),
                self.jobs@.len() == before.len(),
                before == old(self).jobs@,
                after == given_up(before, old(self).payouts@, entry_id, now),
                only_jobs_change(*old(self), *self),
                forall|j: int| 0 <= j < i ==> self.jobs@[j] == #[trigger] after[j],
                forall|j: int| i <= j < before.len() ==> self.jobs@[j] == #[trigger] before[j],
            decreases before.len() - i,
        {
            assert(self.jobs@[i as int] == before[i as int]);
            if self.jobs[i].entry_id == entry_id && self.is_replaceable(i) {
                self.jobs[i].failed_at = Some(now);
            }
            i = i + 1;
        }
        assert(self.jobs@ =~= after);
        self.jobs.push(new_claim(id, entry_id, event_id, request_json, now));
        proof {
            absent_id(before, id, 0);
            assert forall|j: int| 0 <= j < after.len() implies (#[trigger] after[j]).id == before[j].id
                && after[j].payout_id == before[j].payout_id && after[j].entry_id
                == before[j].entry_id && (after[j].is_live() ==> before[j].is_live()) by {}
            assert(self.jobs@.drop_last() =~= after);
        }
        Ok(id)
    }
}

/// A payment that is still to be sent for a claim.
pub open spec fn is_new_payment(
    payout: Payout,
    id: Uuid,
    job: PayoutJob,
    invoice: String,
    amount_sats: u64,
    hash: Seq<char>,
    now: i64,
) -> bool {
    &&& payout == (Payout {
        id,
        entry_id: job.entry_id,
        event_id: job.event_id,
        payout_payment_request: invoice,
        payout_amount_sats: amount_sats,
        payment_hash: payout.payment_hash,
        payment_preimage: None,
        initiated_at: now,
        succeed_at: None,
        failed_at: None,
    })
    &&& payout.pays_to(hash)
}

/// The payment hash of a BOLT11 invoice, in hexadecimal.
pub open spec fn invoice_hash(invoice: Seq<char>) -> Option<Seq<char>> {
    match bolt11(invoice) {
        Ok((_, hash, _)) => Some(hex_text(hash)),
        Err(_) => None,
    }
}

/// The payment hash of a BOLT11 invoice, in hexadecimal.
pub fn extract_payment_hash_from_invoice(invoice: &str) -> (hash: Option<String>)
    ensures
        crate::encoding::text_view(hash) == invoice_hash(invoice@),
{
    match read_bolt11(invoice) {
        Ok(read) => Some(hex_encode(&read.payment_hash)),
        Err(_) => None,
    }
}

impl PayoutLedger {
    /// What comes of a prepared payment: the payment that the claim has, or a new one.
    pub open spec fn preparation(
        self,
        job_id: Uuid,
        payout_id: Uuid,
        invoice: Seq<char>,
        amount_sats: u64,
        prepared_json: Seq<char>,
    ) -> Result<Option<Uuid>, LedgerError> {
        match invoice_hash(invoice) {
            None => Err(LedgerError::InvalidInvoice),
            Some(hash) => if amount_sats > i64::MAX {
                Err(LedgerError::AmountOverflow)
            } else {
                match job_with(self.jobs@, job_id, 0) {
                    None => Err(LedgerError::NoSuchClaim),
                    Some(at) => {
                        let job = self.jobs@[at];
                        if !job.is_live() {
                            Err(LedgerError::NoSuchClaim)
                        } else {
                            match job.payout_id {
                                Some(existing) => if job.prepared_json matches Some(kept) && kept@
                                    == prepared_json {
                                    Ok(Some(existing))
                                } else {
                                    Err(LedgerError::ClaimChanged)
                                },
                                None => if has_live_payment(self.payouts@, job.entry_id) {
                                    Err(LedgerError::LivePayment)
                                } else if payout_with(self.payouts@, payout_id, 0) is Some {
                                    Err(LedgerError::ClaimIdUsed)
                                } else if hash_taken(self.payouts@, hash) {
                                    Err(LedgerError::HashUsed)
                                } else {
                                    Ok(None)
                                },
                            }
                        }
                    },
                }
            },
        }
    }

    /// Enter the invoice that was prepared for a claim, with its receipt, so that it is sent. The
    /// same receipt once more changes nothing, and another is refused; no hash is paid to twice.
    pub fn store_prepared_payout(
        &mut self,
        job_id: Uuid,
        payout_id: Uuid,
        invoice: String,
        amount_sats: u64,
        prepared_json: String,
        now: i64,
    ) -> (stored: Result<Uuid, LedgerError>)
        requires
            old(self).wf(),
        ensures
            final(self).wf(),
            match old(self).preparation(
                job_id,
                payout_id,
                invoice@,
                amount_sats,
                prepared_json@,
            ) {
                Err(error) => stored == Err::<Uuid, LedgerError>(error) && *final(self)
                    == *old(self),
                Ok(Some(existing)) => stored == Ok::<Uuid, LedgerError>(existing) && *final(self)
                    == *old(self),
                Ok(None) => {
                    let at = job_with(old(self).jobs@, job_id, 0)->0;
                    &&& stored == Ok::<Uuid, LedgerError>(payout_id)
                    &&& *final(self) == (PayoutLedger {
                        jobs: final(self).jobs,
                        payouts: final(self).payouts,
                        ..*old(self)
                    })
                    &&& final(self).jobs@ == old(self).jobs@.update(
                        at,
                        PayoutJob {
                            payout_id: Some(payout_id),
                            prepared_json: Some(prepared_json),
                            last_error: None,
                            ..old(self).jobs@[at]
                        },
                    )
                    &&& final(self).payouts@.len() == old(self).payouts@.len() + 1
                    &&& final(self).payouts@.drop_last() == old(self).payouts@
                    &&& is_new_payment(
                        final(self).payouts@.last(),
                        payout_id,
                        old(self).jobs@[at],
                        invoice,
                        amount_sats,
                        invoice_hash(invoice@)->0,
                        now,
                    )
                },
            },
    {
        let hash = match extract_payment_hash_from_invoice(invoice.as_str()) {
            Some(hash) => hash,
            None => {
                return Err(LedgerError::InvalidInvoice);
            },
        };
        if amount_sats > i64::MAX as u64 {
            return Err(LedgerError::AmountOverflow);
        }
        let at: usize = match self.find_job(job_id) {
            Some(at) => at,
            None => {
                return Err(LedgerError::NoSuchClaim);
            },
        };
        if self.jobs[at].failed_at.is_some() {
            return Err(LedgerError::NoSuchClaim);
        }
        if let Some(existing) = self.jobs[at].payout_id {
            return match &self.jobs[at].prepared_json {
                Some(kept) => if *kept == prepared_json {
                    Ok(existing)
                } else {
                    Err(LedgerError::ClaimChanged)
                },
                None => Err(LedgerError::ClaimChanged),
            };
        }
        let entry_id: Uuid = self.jobs[at].entry_id;
        let event_id: Uuid = self.jobs[at].event_id;
        if self.has_live_payment(entry_id) {
            return Err(LedgerError::LivePayment);
        }
        if self.find_payout(payout_id).is_some() {
            return Err(LedgerError::ClaimIdUsed);
        }
        if self.is_hash_taken(&hash) {
            return Err(LedgerError::HashUsed);
        }
        let ghost jobs = self.jobs@;
        let ghost payouts = self.payouts@;
        let payout = Payout {
            id: payout_id,
            entry_id,
            event_id,
            payout_payment_request: invoice,
            payout_amount_sats: amount_sats,
            payment_hash: Some(hash),
            payment_preimage: None,
            initiated_at: now,
            succeed_at: None,
            failed_at: None,
        };
        self.payouts.push(payout);
        self.jobs[at].payout_id = Some(payout_id);
        self.jobs[at].prepared_json = Some(prepared_json);
        self.jobs[at].last_error = None;
        proof {
            let after = self.payouts@;
            absent_payout(payouts, payout_id, 0);
            assert(after.drop_last() =~= payouts);
            assert forall|id: Uuid| #[trigger] payout_with(payouts, id, 0) is Some implies payout_with(
                after,
                id,
                0,
            ) == payout_with(payouts, id, 0) && 0 <= payout_with(payouts, id, 0)->0
                < payouts.len() by {
                payout_stays(payouts, payout, id, 0);
                assert(after =~= payouts.push(payout));
            }
            new_payout_is_found(payouts, payout, 0);
            assert(after =~= payouts.push(payout));
            assert forall|i: int, j: int, hash: Seq<char>|
                0 <= i < j < after.len() && after[i].pays_to(hash) implies !after[j].pays_to(
                hash,
            ) by {
                if j == payouts.len() {
                    assert(payouts[i].pays_to(hash));
                    assert(hash_taken(payouts, hash));
                }
            }
            assert(self.jobs@ =~= jobs.update(
                at as int,
                PayoutJob {
                    payout_id: Some(payout_id),
                    prepared_json: Some(prepared_json),
                    last_error: None,
                    ..jobs[at as int]
                },
            ));
            assert forall|i: int| 0 <= i < self.jobs@.len() implies ((
            #[trigger] self.jobs@[i]).payout_id matches Some(id) ==> payout_with(after, id, 0)
                is Some && after[payout_with(after, id, 0)->0].entry_id
                == self.jobs@[i].entry_id) by {
                if i != at {
                    assert(self.jobs@[i] == jobs[i]);
                    if jobs[i].payout_id is Some {
                        let id = jobs[i].payout_id->0;
                        assert(payout_with(payouts, id, 0) is Some);
                    }
                }
            }
        }
        Ok(payout_id)
    }
}

/// An id that no payment has from the `from`th on.
proof fn absent_payout(payouts: Seq<Payout>, id: Uuid, from: int)
    requires
        0 <= from,
        payout_with(payouts, id, from) is None,
    ensures
        forall|i: int| from <= i < payouts.len() ==> (#[trigger] payouts[i]).id != id,
    decreases payouts.len() - from,
{
    if from < payouts.len() {
        absent_payout(payouts, id, from + 1);
    }
}

/// What is found stays where it is, whatever payment follows.
proof fn payout_stays(payouts: Seq<Payout>, payout: Payout, id: Uuid, from: int)
    requires
        0 <= from,
        payout_with(payouts, id, from) is Some,
    ensures
        payout_with(payouts.push(payout), id, from) == payout_with(payouts, id, from),
        from <= payout_with(payouts, id, from)->0 < payouts.len(),
    decreases payouts.len() - from,
{
    if payouts[from].id != id {
        payout_stays(payouts, payout, id, from + 1);
    }
}

/// A payment under a new id is found where it was entered.
proof fn new_payout_is_found(payouts: Seq<Payout>, payout: Payout, from: int)
    requires
        0 <= from <= payouts.len(),
        payout_with(payouts, payout.id, from) is None,
    ensures
        payout_with(payouts.push(payout), payout.id, from) == Some(payouts.len() as int),
    decreases payouts.len() - from,
{
    if from < payouts.len() {
        new_payout_is_found(payouts, payout, from + 1);
    }
}

/// Why claims are given up when the pot is about to be paid out on-chain.
pub const WINDOW_REACHED: &'static str = "On-chain settlement window reached";

/// A claim, after payouts over Lightning were closed for an event: given up where nothing was sent
/// for it.
pub open spec fn closes_claim(before: PayoutJob, after: PayoutJob, event_id: Uuid, now: i64) -> bool {
    if before.event_id == event_id && before.is_open() && before.payout_id is None {
        &&& after == (PayoutJob {
            failed_at: Some(now),
            last_error: after.last_error,
            ..before
        })
        &&& after.last_error matches Some(error) && error@ == WINDOW_REACHED@
    } else {
        after == before
    }
}

impl PayoutLedger {
    /// Close payouts over Lightning for an event, before the pot is paid out on-chain. Claims for
    /// which nothing was sent are given up; the others stay until it is known what came of their
    /// payment.
    pub fn close_payout_window(&mut self, event_id: Uuid, now: i64)
        requires
            old(self).wf(),
        ensures
            final(self).wf(),
            *final(self) == (PayoutLedger {
                jobs: final(self).jobs,
                closed: final(self).closed,
                ..*old(self)
            }),
            final(self).closed@ == if old(self).automatic@.contains(event_id) && !old(
                self,
            ).is_closed(event_id) {
                old(self).closed@.push(event_id)
            } else {
                old(self).closed@
            },
            final(self).jobs@.len() == old(self).jobs@.len(),
            forall|i: int|
                0 <= i < old(self).jobs@.len() ==> closes_claim(
                    #[trigger] old(self).jobs@[i],
                    final(self).jobs@[i],
                    event_id,
                    now,
                ),
    {
        if self.has_automatic_payouts(event_id) && !self.payout_window_is_closed(event_id) {
            self.closed.push(event_id);
        }
        let ghost before = self.jobs@;
        let ghost closed = self.closed;
        let mut i: usize = 0;
        while i < self.jobs.len()
            invariant
                i <= self.jobs@.len(),
                self.jobs@.len() == before.len(),
                before == old(self).jobs@,
                *self == (PayoutLedger { jobs: self.jobs, closed, ..*old(self) }),
                forall|j: int|
                    0 <= j < i ==> closes_claim(
                        #[trigger] before[j],
                        self.jobs@[j],
                        event_id,
                        now,
                    ),
                forall|j: int| i <= j < before.len() ==> self.jobs@[j] == #[trigger] before[j],
            decreases before.len() - i,
        {
            assert(self.jobs@[i as int] == before[i as int]);
            if self.jobs[i].event_id == event_id && self.jobs[i].completed_at.is_none()
                && self.jobs[i].failed_at.is_none() && self.jobs[i].payout_id.is_none() {
                self.jobs[i].failed_at = Some(now);
                self.jobs[i].last_error = Some(WINDOW_REACHED.to_owned());
            }
            i = i + 1;
        }
        proof {
            assert forall|j: int| 0 <= j < before.len() implies (#[trigger] self.jobs@[j]).id
                == before[j].id && self.jobs@[j].payout_id == before[j].payout_id
                && self.jobs@[j].entry_id == before[j].entry_id && (self.jobs@[j].is_live()
                ==> before[j].is_live()) by {
                assert(closes_claim(before[j], self.jobs@[j], event_id, now));
            }
        }
    }

    /// Give a claim up whose payment is known to have failed for good.
    pub fn fail_payout_job(&mut self, id: Uuid, now: i64)
        requires
            old(self).wf(),
        ensures
            final(self).wf(),
            only_jobs_change(*old(self), *final(self)),
            final(self).jobs@ == match job_with(old(self).jobs@, id, 0) {
                Some(at) => if old(self).jobs@[at].completed_at is None && (old(
                    self,
                ).jobs@[at].payout_id matches Some(payout_id) && payment_lost(
                    old(self).payouts@,
                    payout_id,
                )) {
                    old(self).jobs@.update(
                        at,
                        PayoutJob { failed_at: Some(now), ..old(self).jobs@[at] },
                    )
                } else {
                    old(self).jobs@
                },
                None => old(self).jobs@,
            },
    {
        if let Some(at) = self.find_job(id) {
            if self.jobs[at].completed_at.is_none() {
                if let Some(payout_id) = self.jobs[at].payout_id {
                    if self.is_payment_lost(payout_id) {
                        let ghost before = self.jobs@;
                        self.jobs[at].failed_at = Some(now);
                        assert(self.jobs@ =~= before.update(
                            at as int,
                            PayoutJob { failed_at: Some(now), ..before[at as int] },
                        ));
                    }
                }
            }
        }
    }

    /// Whether a claim is paid and proven, so that its secrets may be released; or why not.
    pub open spec fn release_fault(
        self,
        id: Uuid,
        entry: UserEntry,
        key: Seq<char>,
        preimage: Seq<char>,
    ) -> Option<LedgerError> {
        match job_with(self.jobs@, id, 0) {
            None => Some(LedgerError::NoSuchClaim),
            Some(at) => {
                let job = self.jobs@[at];
                if !job.is_live() || job.entry_id != entry.id || !(job.payout_id matches Some(
                    payout_id,
                ) && payment_proven(self.payouts@, payout_id)) {
                    Some(LedgerError::NoSuchClaim)
                } else {
                    secrets_fault(entry, key, preimage)
                }
            },
        }
    }

    /// Enter the secrets that were released for a claim that is paid and proven: they have to be
    /// the entry's, and once entered they stay. The claim is completed.
    pub fn complete_payout_job(
        &mut self,
        id: Uuid,
        entry: &mut UserEntry,
        entry_private_key: String,
        payout_preimage: String,
        now: i64,
    ) -> (completed: Result<(), LedgerError>)
        requires
            old(self).wf(),
        ensures
            final(self).wf(),
            match old(self).release_fault(
                id,
                *old(entry),
                entry_private_key@,
                payout_preimage@,
            ) {
                Some(error) => completed == Err::<(), LedgerError>(error) && *final(self)
                    == *old(self) && *final(entry) == *old(entry),
                None => {
                    let at = job_with(old(self).jobs@, id, 0)->0;
                    &&& completed is Ok
                    &&& *final(entry) == (UserEntry {
                        ephemeral_privatekey: Some(entry_private_key),
                        payout_preimage: Some(payout_preimage),
                        ..*old(entry)
                    })
                    &&& only_jobs_change(*old(self), *final(self))
                    &&& final(self).jobs@ == old(self).jobs@.update(
                        at,
                        PayoutJob {
                            completed_at: match old(self).jobs@[at].completed_at {
                                Some(at) => Some(at),
                                None => Some(now),
                            },
                            last_error: None,
                            ..old(self).jobs@[at]
                        },
                    )
                },
            },
    {
        let at: usize = match self.find_job(id) {
            Some(at) => at,
            None => {
                return Err(LedgerError::NoSuchClaim);
            },
        };
        if self.jobs[at].failed_at.is_some() || self.jobs[at].entry_id != entry.id {
            return Err(LedgerError::NoSuchClaim);
        }
        match self.jobs[at].payout_id {
            None => {
                return Err(LedgerError::NoSuchClaim);
            },
            Some(payout_id) => if !self.is_payment_proven(payout_id) {
                return Err(LedgerError::NoSuchClaim);
            },
        }
        match check_secrets(entry, &entry_private_key, &payout_preimage) {
            Ok(_) => {},
            Err(error) => {
                return Err(error);
            },
        }
        entry.ephemeral_privatekey = Some(entry_private_key);
        entry.payout_preimage = Some(payout_preimage);
        let ghost before = self.jobs@;
        if self.jobs[at].completed_at.is_none() {
            self.jobs[at].completed_at = Some(now);
        }
        self.jobs[at].last_error = None;
        assert(self.jobs@ =~= before.update(
            at as int,
            PayoutJob {
                completed_at: match before[at as int].completed_at {
                    Some(at) => Some(at),
                    None => Some(now),
                },
                last_error: None,
                ..before[at as int]
            },
        ));
        Ok(())
    }

    /// The payment was made, and there is a proof of it.
    fn is_payment_proven(&self, payout_id: Uuid) -> (proven: bool)
        ensures
            proven == payment_proven(self.payouts@, payout_id),
    {
        match self.find_payout(payout_id) {
            Some(at) => self.payouts[at].succeed_at.is_some() && self.payouts[
                at
            ].payment_preimage.is_some(),
            None => false,
        }
    }
}

/// The payment was made, and there is a proof of it.
pub open spec fn payment_proven(payouts: Seq<Payout>, id: Uuid) -> bool {
    payout_with(payouts, id, 0) matches Some(at) && payouts[at].succeed_at is Some
        && payouts[at].payment_preimage is Some
}

/// Why secrets are not an entry's, if so: its key does not belong to its public key, its preimage
/// does not open its payout hash, or others were entered before.
pub open spec fn secrets_fault(entry: UserEntry, key: Seq<char>, preimage: Seq<char>) -> Option<
    LedgerError,
> {
    match point_of_hex(entry.ephemeral_pubkey@) {
        None => Some(LedgerError::InvalidStoredKey),
        Some(point) => match key_check(key, point) {
            Err(PayoutRejection::InvalidKey) => Some(LedgerError::InvalidKey),
            Err(_) => Some(LedgerError::WrongKey),
            Ok(_) => match opened(preimage, entry.payout_hash@) {
                Err(PayoutRejection::InvalidPreimage) => Some(LedgerError::InvalidPreimage),
                Err(_) => Some(LedgerError::WrongPreimage),
                Ok(_) => if (entry.ephemeral_privatekey matches Some(kept) && kept@ != key) || (
                entry.payout_preimage matches Some(kept) && kept@ != preimage) {
                    Some(LedgerError::SecretsChanged)
                } else {
                    None
                },
            },
        },
    }
}

/// Check that secrets are an entry's.
fn check_secrets(entry: &UserEntry, key: &String, preimage: &String) -> (checked: Result<
    (),
    LedgerError,
>)
    ensures
        match secrets_fault(*entry, key@, preimage@) {
            Some(error) => checked matches Err(told) && told == error,
            None => checked is Ok,
        },
{
    let point = match point_from_hex(entry.ephemeral_pubkey.as_str()) {
        Some(point) => point,
        None => {
            return Err(LedgerError::InvalidStoredKey);
        },
    };
    match verify_entry_key(key.as_str(), &point) {
        Ok(_) => {},
        Err(PayoutRejection::InvalidKey) => {
            return Err(LedgerError::InvalidKey);
        },
        Err(_) => {
            return Err(LedgerError::WrongKey);
        },
    }
    match verify_payout_preimage(preimage.as_str(), entry.payout_hash.as_str()) {
        Ok(_) => {},
        Err(PayoutRejection::InvalidPreimage) => {
            return Err(LedgerError::InvalidPreimage);
        },
        Err(_) => {
            return Err(LedgerError::WrongPreimage);
        },
    }
    if let Some(kept) = &entry.ephemeral_privatekey {
        if *kept != *key {
            return Err(LedgerError::SecretsChanged);
        }
    }
    if let Some(kept) = &entry.payout_preimage {
        if *kept != *preimage {
            return Err(LedgerError::SecretsChanged);
        }
    }
    Ok(())
}

/// The policy that a ticket's reservation was paid for under, with the key of its entry.
#[derive(Debug)]
pub struct TicketPolicy {
    pub ticket_hash: String,
    pub entry_pubkey: String,
    pub policy_json: String,
}

/// Fix the policy of a ticket for its reservation. A ticket that was reserved anew has another hash
/// and takes a new policy; the same policy once more changes nothing, and another is refused.
pub fn store_ticket_payout_policy(
    stored: &mut Option<TicketPolicy>,
    ticket_hash: String,
    entry_pubkey: String,
    policy_json: String,
) -> (fixed: Result<(), LedgerError>)
    ensures
        match *old(stored) {
            Some(kept) => if kept.ticket_hash@ == ticket_hash@ {
                &&& *final(stored) == *old(stored)
                &&& fixed == if kept.entry_pubkey@ == entry_pubkey@ && kept.policy_json@
                    == policy_json@ {
                    Ok::<(), LedgerError>(())
                } else {
                    Err::<(), LedgerError>(LedgerError::PolicyFixed)
                }
            } else {
                fixed is Ok && *final(stored) == Some(
                    TicketPolicy { ticket_hash, entry_pubkey, policy_json },
                )
            },
            None => fixed is Ok && *final(stored) == Some(
                TicketPolicy { ticket_hash, entry_pubkey, policy_json },
            ),
        },
{
    if let Some(kept) = &*stored {
        if kept.ticket_hash == ticket_hash {
            return if kept.entry_pubkey == entry_pubkey && kept.policy_json == policy_json {
                Ok(())
            } else {
                Err(LedgerError::PolicyFixed)
            };
        }
    }
    *stored = Some(TicketPolicy { ticket_hash, entry_pubkey, policy_json });
    Ok(())
}

/// The policy that is stored for a ticket, if it was fixed for the hash that the ticket has now.
pub fn ticket_payout_policy<'a>(stored: &'a Option<TicketPolicy>, ticket_hash: &String) -> (policy:
    Option<&'a String>)
    ensures
        match *stored {
            Some(kept) => if kept.ticket_hash@ == ticket_hash@ {
                policy matches Some(found) && *found == kept.policy_json
            } else {
                policy is None
            },
            None => policy is None,
        },
{
    match stored {
        Some(kept) => if kept.ticket_hash == *ticket_hash {
            Some(&kept.policy_json)
        } else {
            None
        },
        None => None,
    }
}

/// The entry key that a ticket's policy was fixed with, if that was for the hash that the ticket has
/// now.
pub fn ticket_payout_public_key<'a>(stored: &'a Option<TicketPolicy>, ticket_hash: &String) -> (key:
    Option<&'a String>)
    ensures
        match *stored {
            Some(kept) => if kept.ticket_hash@ == ticket_hash@ {
                key matches Some(found) && *found == kept.entry_pubkey
            } else {
                key is None
            },
            None => key is None,
        },
{
    match stored {
        Some(kept) => if kept.ticket_hash == *ticket_hash {
            Some(&kept.entry_pubkey)
        } else {
            None
        },
        None => None,
    }
}

/// Fix the policy of an entry. The same once more changes nothing, and another is refused.
pub fn store_entry_payout_policy(stored: &mut Option<String>, policy_json: String) -> (fixed: Result<
    (),
    LedgerError,
>)
    ensures
        match *old(stored) {
            Some(kept) => *final(stored) == *old(stored) && fixed == if kept@ == policy_json@ {
                Ok::<(), LedgerError>(())
            } else {
                Err::<(), LedgerError>(LedgerError::PolicyFixed)
            },
            None => fixed is Ok && *final(stored) == Some(policy_json),
        },
{
    if let Some(kept) = &*stored {
        return if *kept == policy_json {
            Ok(())
        } else {
            Err(LedgerError::PolicyFixed)
        };
    }
    *stored = Some(policy_json);
    Ok(())
}

} // verus!
