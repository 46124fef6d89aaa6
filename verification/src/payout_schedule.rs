//! When claims in the ledger are taken up again, and how a claim stands.

use crate::competition::Uuid;
use crate::encoding::text_view;
use crate::payout_jobs::{
    claims_are_single, extract_payment_hash_from_invoice, given_up, has_live_claim,
    has_live_payment, hash_taken, invoice_hash, job_with, only_jobs_change, payments_are_single,
    payout_with, LedgerError, Payout, PayoutJob, PayoutLedger,
};
use vstd::arithmetic::power2::{lemma2_to64, pow2};
use vstd::prelude::*;

verus! {

/// How many seconds pass before it is asked again what came of a payment.
pub const POLL_INTERVAL: i64 = 5;

/// The most seconds that pass before a claim that failed is tried again.
pub const LONGEST_RETRY: i64 = 300;

/// How many claims are taken up at once.
pub const BATCH: usize = 100;

/// How many seconds pass before a claim is tried again that was tried `attempts` times before: five,
/// and twice as many each time, up to five minutes.
pub open spec fn retry_delay(attempts: nat) -> int {
    let doubled = POLL_INTERVAL * pow2(
        if attempts < 7 {
            attempts
        } else {
            7
        },
    );
    if doubled < LONGEST_RETRY {
        doubled
    } else {
        LONGEST_RETRY as int
    }
}

/// How many seconds pass before a claim is tried again that was tried `attempts` times before.
pub fn retry_delay_seconds(attempts: u32) -> (seconds: i64)
    ensures
        seconds == retry_delay(attempts as nat),
        POLL_INTERVAL <= seconds <= LONGEST_RETRY,
{
    proof {
        lemma2_to64();
    }
    match attempts {
        0 => 5,
        1 => 10,
        2 => 20,
        3 => 40,
        4 => 80,
        5 => 160,
        _ => {
            assert(pow2(6) == 64 && pow2(7) == 128);
            LONGEST_RETRY
        },
    }
}

/// The longer a claim has failed, the longer it waits, and never longer than five minutes.
pub proof fn retries_slow_down(attempts: nat, more: nat)
    requires
        attempts <= more,
    ensures
        POLL_INTERVAL <= retry_delay(attempts) <= retry_delay(more) <= LONGEST_RETRY,
{
    lemma2_to64();
    let low = if attempts < 7 {
        attempts
    } else {
        7
    };
    let high = if more < 7 {
        more
    } else {
        7
    };
    assert(low == 0 || low == 1 || low == 2 || low == 3 || low == 4 || low == 5 || low == 6 || low
        == 7);
    assert(high == 0 || high == 1 || high == 2 || high == 3 || high == 4 || high == 5 || high == 6
        || high == 7);
}

/// A claim, after it went wrong once more.
pub open spec fn tried_again(before: PayoutJob, attempts: nat, error: String, now: i64) -> PayoutJob {
    PayoutJob {
        attempts: if before.attempts < u32::MAX {
            (before.attempts + 1) as u32
        } else {
            u32::MAX
        },
        retry_at: (now + retry_delay(attempts)) as i64,
        last_error: Some(error),
        ..before
    }
}

impl PayoutLedger {
    /// A claim went wrong: try it again later, the later the more often it did. `attempts` is how
    /// often it was tried when it was taken up.
    pub fn retry_payout_job(&mut self, id: Uuid, attempts: u32, error: String, now: i64)
        requires
            old(self).wf(),
            now <= i64::MAX - LONGEST_RETRY,
        ensures
            final(self).wf(),
            only_jobs_change(*old(self), *final(self)),
            final(self).jobs@ == match job_with(old(self).jobs@, id, 0) {
                Some(at) => if old(self).jobs@[at].is_open() {
                    old(self).jobs@.update(
                        at,
                        tried_again(old(self).jobs@[at], attempts as nat, error, now),
                    )
                } else {
                    old(self).jobs@
                },
                None => old(self).jobs@,
            },
    {
        let delay: i64 = retry_delay_seconds(attempts);
        if let Some(at) = self.find_job(id) {
            if self.jobs[at].completed_at.is_none() && self.jobs[at].failed_at.is_none() {
                let ghost before = self.jobs@;
                if self.jobs[at].attempts < u32::MAX {
                    self.jobs[at].attempts = self.jobs[at].attempts + 1;
                }
                self.jobs[at].retry_at = now + delay;
                self.jobs[at].last_error = Some(error);
                assert(self.jobs@ =~= before.update(
                    at as int,
                    tried_again(before[at as int], attempts as nat, error, now),
                ));
            }
        }
    }

    /// Ask again soon what came of the payment of a claim. Waiting for it is no failure, so it does
    /// not count as an attempt.
    pub fn schedule_payout_poll(&mut self, id: Uuid, now: i64)
        requires
            old(self).wf(),
            now <= i64::MAX - POLL_INTERVAL,
        ensures
            final(self).wf(),
            only_jobs_change(*old(self), *final(self)),
            final(self).jobs@ == match job_with(old(self).jobs@, id, 0) {
                Some(at) => if old(self).jobs@[at].is_open() {
                    old(self).jobs@.update(
                        at,
                        PayoutJob {
                            retry_at: (now + POLL_INTERVAL) as i64,
                            ..old(self).jobs@[at]
                        },
                    )
                } else {
                    old(self).jobs@
                },
                None => old(self).jobs@,
            },
    {
        if let Some(at) = self.find_job(id) {
            if self.jobs[at].completed_at.is_none() && self.jobs[at].failed_at.is_none() {
                let ghost before = self.jobs@;
                self.jobs[at].retry_at = now + POLL_INTERVAL;
                assert(self.jobs@ =~= before.update(
                    at as int,
                    PayoutJob { retry_at: (now + POLL_INTERVAL) as i64, ..before[at as int] },
                ));
            }
        }
    }
}

/// The claim is to be taken up now.
pub open spec fn is_due(job: PayoutJob, now: i64) -> bool {
    job.is_open() && job.retry_at <= now
}

/// The claim is taken up before the other: it is due longer, or was made earlier.
pub open spec fn comes_before(a: PayoutJob, b: PayoutJob) -> bool {
    if a.retry_at != b.retry_at {
        a.retry_at < b.retry_at
    } else if a.created_at != b.created_at {
        a.created_at < b.created_at
    } else {
        a.id < b.id
    }
}

/// `order` lists every claim that is due among the first `upto`, once, in the order in which they
/// are taken up.
pub open spec fn lists_due(order: Seq<usize>, jobs: Seq<PayoutJob>, upto: int, now: i64) -> bool {
    &&& forall|i: int|
        0 <= i < order.len() ==> (#[trigger] order[i]) < upto && is_due(jobs[order[i] as int], now)
    &&& forall|j: usize| j < upto && is_due(jobs[j as int], now) ==> #[trigger] order.contains(j)
    &&& forall|i: int, j: int|
        0 <= i < j < order.len() ==> comes_before(
            jobs[(#[trigger] order[i]) as int],
            jobs[(#[trigger] order[j]) as int],
        )
}

/// Whether the claim is taken up before the other.
fn is_before(a: &PayoutJob, b: &PayoutJob) -> (before: bool)
    ensures
        before == comes_before(*a, *b),
{
    if a.retry_at != b.retry_at {
        a.retry_at < b.retry_at
    } else if a.created_at != b.created_at {
        a.created_at < b.created_at
    } else {
        a.id < b.id
    }
}

/// Enter the claim at `next` in the order of those before it.
fn enter_due(order: &mut Vec<usize>, jobs: &Vec<PayoutJob>, next: usize, now: i64)
    requires
        next < jobs@.len(),
        claims_are_single(jobs@),
        lists_due(old(order)@, jobs@, next as int, now),
        is_due(jobs@[next as int], now),
    ensures
        lists_due(final(order)@, jobs@, next + 1, now),
{
    let ghost before = order@;
    let mut at: usize = 0;
    while at < order.len() && is_before(&jobs[order[at]], &jobs[next])
        invariant
            at <= order@.len(),
            order@ == before,
            next < jobs@.len(),
            lists_due(before, jobs@, next as int, now),
            forall|i: int|
                0 <= i < at ==> comes_before(jobs@[(#[trigger] before[i]) as int], jobs@[next as int]),
        decreases order@.len() - at,
    {
        at = at + 1;
    }
    order.insert(at, next);
    proof {
        let after = order@;
        assert(after =~= before.insert(at as int, next));
        assert forall|i: int| at <= i < before.len() implies comes_before(
            jobs@[next as int],
            jobs@[(#[trigger] before[i]) as int],
        ) by {
            assert(before[i] < next);
            assert(jobs@[before[i] as int].id != jobs@[next as int].id);
            if i > at {
                assert(comes_before(jobs@[before[at as int] as int], jobs@[before[i] as int]));
            }
            assert(before[at as int] < next);
            assert(jobs@[before[at as int] as int].id != jobs@[next as int].id);
        }
        assert forall|i: int, j: int| 0 <= i < j < after.len() implies comes_before(
            jobs@[(#[trigger] after[i]) as int],
            jobs@[(#[trigger] after[j]) as int],
        ) by {
            let from_i = if i < at {
                i
            } else {
                i - 1
            };
            let from_j = if j < at {
                j
            } else {
                j - 1
            };
            if i != at {
                assert(after[i] == before[from_i]);
            }
            if j != at {
                assert(after[j] == before[from_j]);
            }
        }
        assert forall|j: usize| j < next + 1 && is_due(jobs@[j as int], now) implies
            #[trigger] after.contains(j) by {
            if j == next {
                assert(after[at as int] == next);
            } else {
                assert(before.contains(j));
                let i = choose|i: int| 0 <= i < before.len() && before[i] == j;
                if i < at {
                    assert(after[i] == j);
                } else {
                    assert(after[i + 1] == j);
                }
            }
        }
        assert forall|i: int| 0 <= i < after.len() implies (#[trigger] after[i]) < next + 1 && is_due(
            jobs@[after[i] as int],
            now,
        ) by {
            if i < at {
                assert(after[i] == before[i]);
            } else if i > at {
                assert(after[i] == before[i - 1]);
            }
        }
    }
}

impl PayoutLedger {
    /// The claims that are taken up now: those that are due longest, in order, at most a batch of
    /// them. Claims of events that have ended are among them, so that what is paid is released.
    pub fn due_payout_jobs(&self, now: i64) -> (due: Vec<usize>)
        requires
            self.wf(),
        ensures
            exists|all: Seq<usize>| #[trigger]
                lists_due(all, self.jobs@, self.jobs@.len() as int, now) && due@ == if all.len()
                    <= BATCH {
                    all
                } else {
                    all.take(BATCH as int)
                },
    {
        let mut order: Vec<usize> = Vec::new();
        let mut i: usize = 0;
        while i < self.jobs.len()
            invariant
                i <= self.jobs@.len(),
                claims_are_single(self.jobs@),
                lists_due(order@, self.jobs@, i as int, now),
            decreases self.jobs@.len() - i,
        {
            let job = &self.jobs[i];
            if job.completed_at.is_none() && job.failed_at.is_none() && job.retry_at <= now {
                enter_due(&mut order, &self.jobs, i, now);
            }
            i = i + 1;
        }
        let ghost all = order@;
        if order.len() > BATCH {
            order.truncate(BATCH);
            assert(order@ =~= all.take(BATCH as int));
        }
        order
    }
}

/// How a winner's claim stands.
#[derive(Clone, Copy, PartialEq, Eq, Structural, Debug)]
pub enum ClaimStatus {
    Paid,
    Completing,
    InProgress,
    Retrying,
    Queued,
}

impl ClaimStatus {
    /// What players are told.
    pub fn as_str(self) -> (text: &'static str)
        ensures
            text@ == match self {
                ClaimStatus::Paid => "Paid"@,
                ClaimStatus::Completing => "Paid; completing settlement"@,
                ClaimStatus::InProgress => "Payment in progress"@,
                ClaimStatus::Retrying => "Retrying automatically"@,
                ClaimStatus::Queued => "Queued automatically"@,
            },
    {
        match self {
            ClaimStatus::Paid => "Paid",
            ClaimStatus::Completing => "Paid; completing settlement",
            ClaimStatus::InProgress => "Payment in progress",
            ClaimStatus::Retrying => "Retrying automatically",
            ClaimStatus::Queued => "Queued automatically",
        }
    }
}

/// How a claim stands.
pub open spec fn claim_status(job: PayoutJob, payouts: Seq<Payout>) -> ClaimStatus {
    if job.completed_at is Some {
        ClaimStatus::Paid
    } else if job.payout_id matches Some(id) && payout_with(payouts, id, 0) matches Some(at)
        && payouts[at].succeed_at is Some {
        ClaimStatus::Completing
    } else if job.payout_id is Some {
        ClaimStatus::InProgress
    } else if job.last_error is Some {
        ClaimStatus::Retrying
    } else {
        ClaimStatus::Queued
    }
}

impl PayoutLedger {
    /// How the claim of an entry stands, if it has one that has not failed.
    pub fn payout_job_status(&self, entry_id: Uuid) -> (status: Option<ClaimStatus>)
        requires
            self.wf(),
        ensures
            status is Some == has_live_claim(self.jobs@, entry_id),
            forall|i: int|
                0 <= i < self.jobs@.len() && (#[trigger] self.jobs@[i]).entry_id == entry_id
                    && self.jobs@[i].is_live() ==> status == Some(
                    claim_status(self.jobs@[i], self.payouts@),
                ),
    {
        let mut i: usize = 0;
        while i < self.jobs.len()
            invariant
                i <= self.jobs@.len(),
                self.wf(),
                forall|j: int|
                    0 <= j < i ==> !((#[trigger] self.jobs@[j]).entry_id == entry_id
                        && self.jobs@[j].is_live()),
            decreases self.jobs@.len() - i,
        {
            let job = &self.jobs[i];
            if job.entry_id == entry_id && job.failed_at.is_none() {
                assert(self.jobs@[i as int].is_live());
                if job.completed_at.is_some() {
                    return Some(ClaimStatus::Paid);
                }
                if let Some(payout_id) = job.payout_id {
                    if let Some(at) = self.find_payout(payout_id) {
                        if self.payouts[at].succeed_at.is_some() {
                            return Some(ClaimStatus::Completing);
                        }
                    }
                    return Some(ClaimStatus::InProgress);
                }
                return if job.last_error.is_some() {
                    Some(ClaimStatus::Retrying)
                } else {
                    Some(ClaimStatus::Queued)
                };
            }
            i = i + 1;
        }
        None
    }
}

/// The hashes that payments are indexed under.
pub open spec fn hashes(payouts: Seq<Payout>) -> Seq<Option<Seq<char>>> {
    payouts.map_values(|payout: Payout| text_view(payout.payment_hash))
}

/// The hashes after the first `upto` payments were indexed: a payment without a hash gets that of
/// its invoice, unless the invoice cannot be read or another payment has the hash.
pub open spec fn indexed(payouts: Seq<Payout>, upto: int) -> Seq<Option<Seq<char>>>
    decreases upto,
{
    if upto <= 0 {
        hashes(payouts)
    } else {
        let before = indexed(payouts, upto - 1);
        let at = upto - 1;
        match invoice_hash(payouts[at].payout_payment_request@) {
            Some(hash) => if before[at] is None && !before.contains(Some(hash)) {
                before.update(at, Some(hash))
            } else {
                before
            },
            None => before,
        }
    }
}

impl PayoutLedger {
    /// Index payments by the hash that they pay to, where they are not yet.
    pub fn index_existing_payment_hashes(&mut self)
        requires
            old(self).wf(),
        ensures
            final(self).wf(),
            *final(self) == (PayoutLedger { payouts: final(self).payouts, ..*old(self) }),
            final(self).payouts@.len() == old(self).payouts@.len(),
            hashes(final(self).payouts@) == indexed(
                old(self).payouts@,
                old(self).payouts@.len() as int,
            ),
            forall|i: int|
                0 <= i < old(self).payouts@.len() ==> #[trigger] final(self).payouts@[i] == (Payout {
                    payment_hash: final(self).payouts@[i].payment_hash,
                    ..old(self).payouts@[i]
                }),
    {
        let ghost before = self.payouts@;
        let mut i: usize = 0;
        while i < self.payouts.len()
            invariant
                i <= self.payouts@.len(),
                self.payouts@.len() == before.len(),
                before == old(self).payouts@,
                old(self).wf(),
                *self == (PayoutLedger { payouts: self.payouts, ..*old(self) }),
                hashes(self.payouts@) == indexed(before, i as int),
                payments_are_single(self.payouts@),
                forall|j: int|
                    0 <= j < before.len() ==> #[trigger] self.payouts@[j] == (Payout {
                        payment_hash: self.payouts@[j].payment_hash,
                        ..before[j]
                    }),
            decreases before.len() - i,
        {
            let ghost current = self.payouts@;
            assert(current[i as int].payout_payment_request
                == before[i as int].payout_payment_request);
            assert(hashes(current)[i as int] == text_view(current[i as int].payment_hash));
            if self.payouts[i].payment_hash.is_none() {
                let hash = extract_payment_hash_from_invoice(
                    self.payouts[i].payout_payment_request.as_str(),
                );
                if let Some(hash) = hash {
                    proof {
                        indexed_hashes_are_taken(current, hash@);
                    }
                    if !self.is_hash_taken(&hash) {
                        let ghost text = hash@;
                        self.payouts[i].payment_hash = Some(hash);
                        proof {
                            assert(hashes(self.payouts@) =~= hashes(current).update(
                                i as int,
                                Some(text),
                            ));
                            assert forall|a: int, b: int, h: Seq<char>|
                                0 <= a < b < self.payouts@.len() && self.payouts@[a].pays_to(
                                    h,
                                ) implies !self.payouts@[b].pays_to(h) by {
                                if a != i {
                                    assert(current[a].pays_to(h));
                                }
                                if b != i {
                                    assert(self.payouts@[b] == current[b]);
                                }
                                if a == i && self.payouts@[b].pays_to(h) {
                                    assert(current[b].pays_to(text));
                                }
                                if b == i && self.payouts@[b].pays_to(h) {
                                    assert(current[a].pays_to(text));
                                }
                            }
                        }
                    }
                }
            }
            i = i + 1;
        }
        proof {
            assert forall|id: Uuid| #[trigger] payout_with(self.payouts@, id, 0) == payout_with(
                before,
                id,
                0,
            ) by {
                same_ids_same_place(before, self.payouts@, id, 0);
            }
            assert forall|j: int| 0 <= j < self.jobs@.len() implies ((
            #[trigger] self.jobs@[j]).payout_id matches Some(id) ==> payout_with(
                self.payouts@,
                id,
                0,
            ) is Some && self.payouts@[payout_with(self.payouts@, id, 0)->0].entry_id
                == self.jobs@[j].entry_id) by {
                if self.jobs@[j].payout_id is Some {
                    let id = self.jobs@[j].payout_id->0;
                    let at = payout_with(before, id, 0)->0;
                    found_within(before, id, 0);
                    assert(self.payouts@[at].entry_id == before[at].entry_id);
                }
            }
        }
    }
}

/// The hashes that payments are indexed under are those that are taken.
proof fn indexed_hashes_are_taken(payouts: Seq<Payout>, hash: Seq<char>)
    ensures
        hashes(payouts).contains(Some(hash)) == hash_taken(payouts, hash),
{
    if hashes(payouts).contains(Some(hash)) {
        let i = choose|i: int| 0 <= i < payouts.len() && hashes(payouts)[i] == Some(hash);
        assert(payouts[i].pays_to(hash));
    }
    if hash_taken(payouts, hash) {
        let i = choose|i: int| 0 <= i < payouts.len() && (#[trigger] payouts[i]).pays_to(hash);
        assert(hashes(payouts)[i] == Some(hash));
    }
}

/// Payments with the same ids are found in the same places.
proof fn same_ids_same_place(a: Seq<Payout>, b: Seq<Payout>, id: Uuid, from: int)
    requires
        0 <= from,
        a.len() == b.len(),
        forall|i: int| 0 <= i < a.len() ==> (#[trigger] b[i]).id == a[i].id,
    ensures
        payout_with(a, id, from) == payout_with(b, id, from),
    decreases a.len() - from,
{
    if from < a.len() {
        assert(b[from].id == a[from].id);
        same_ids_same_place(a, b, id, from + 1);
    }
}

/// What is found is within the payments.
proof fn found_within(payouts: Seq<Payout>, id: Uuid, from: int)
    requires
        0 <= from,
    ensures
        payout_with(payouts, id, from) matches Some(at) ==> from <= at < payouts.len()
            && payouts[at].id == id,
    decreases payouts.len() - from,
{
    if from < payouts.len() {
        found_within(payouts, id, from + 1);
    }
}

/// A claim whose payment may still be made, or was made, keeps every other claim and every other
/// invoice of its entry out: nothing that is asked for can pay an entry twice.
pub proof fn a_live_payment_keeps_others_out(
    ledger: PayoutLedger,
    id: Uuid,
    entry_id: Uuid,
    event_id: Uuid,
    request_json: Seq<char>,
    now: i64,
)
    requires
        ledger.wf(),
        has_live_payment(ledger.payouts@, entry_id),
    ensures
        ledger.claim_fault(id, entry_id, event_id) is Some,
        ledger.fallback_outcome(id, entry_id, event_id, request_json, now) != Ok::<
            bool,
            LedgerError,
        >(true),
{
}

/// While payouts over Lightning are closed for an event, no new claim is made for it.
pub proof fn closed_windows_stay_shut(
    ledger: PayoutLedger,
    id: Uuid,
    entry_id: Uuid,
    event_id: Uuid,
    request_json: Seq<char>,
    now: i64,
)
    requires
        ledger.is_closed(event_id),
    ensures
        ledger.claim_fault(id, entry_id, event_id) == Some(LedgerError::WindowClosed),
        ledger.fallback_outcome(id, entry_id, event_id, request_json, now) == Err::<
            bool,
            LedgerError,
        >(LedgerError::WindowClosed),
{
}

/// A winner's own invoice takes no place from a claim that is completed, or whose payment may still
/// be made or was made: those are the same after others of the entry were given up.
pub proof fn paid_claims_are_never_given_up(
    jobs: Seq<PayoutJob>,
    payouts: Seq<Payout>,
    entry_id: Uuid,
    now: i64,
    at: int,
)
    requires
        0 <= at < jobs.len(),
        jobs[at].completed_at is Some || (jobs[at].payout_id matches Some(id) && payout_with(
            payouts,
            id,
            0,
        ) matches Some(p) && (payouts[p].is_live() || payouts[p].succeed_at is Some)),
    ensures
        given_up(jobs, payouts, entry_id, now)[at] == jobs[at],
{
}

} // verus!
