//! Counts of what is stored, for whoever watches the coordinator.

use crate::clock::{is_datetime, unix_timestamp, whole_seconds, Timestamp};
use crate::competition::Uuid;
use crate::entries::{Ticket, UserEntry};
use crate::payout_jobs::{Payout, PayoutJob};
use crate::states::{CompetitionStatus, HasCompetitionData, StatusKind};
use crate::tickets::TicketStatus;
use vstd::prelude::*;

verus! {

/// Counts of entries, tickets, payments and claims.
#[derive(Debug, Clone, PartialEq)]
pub struct StoreCounts {
    /// Entries whose ticket has been paid.
    pub entries_paid: i64,
    /// Entries whose owner completed signing.
    pub entries_signed: i64,
    /// Tickets by how they stand.
    pub tickets: Vec<(TicketStatus, i64)>,
    pub payouts_pending: i64,
    pub payouts_succeeded: i64,
    pub payouts_failed: i64,
    /// Claims neither completed nor failed.
    pub payout_jobs_open: i64,
    pub payout_jobs_failed: i64,
    /// Open claims that have failed at least once and wait for another try.
    pub payout_jobs_retrying: i64,
    /// Age of the oldest open claim in seconds, 0 when none is open.
    pub oldest_open_payout_job_age_secs: i64,
}

impl Default for StoreCounts {
    /// The counts of nothing.
    fn default() -> (counts: Self)
        ensures
            counts.entries_paid == 0,
            counts.entries_signed == 0,
            counts.tickets@.len() == 0,
            counts.payouts_pending == 0,
            counts.payouts_succeeded == 0,
            counts.payouts_failed == 0,
            counts.payout_jobs_open == 0,
            counts.payout_jobs_failed == 0,
            counts.payout_jobs_retrying == 0,
            counts.oldest_open_payout_job_age_secs == 0,
    {
        StoreCounts {
            entries_paid: 0,
            entries_signed: 0,
            tickets: Vec::new(),
            payouts_pending: 0,
            payouts_succeeded: 0,
            payouts_failed: 0,
            payout_jobs_open: 0,
            payout_jobs_failed: 0,
            payout_jobs_retrying: 0,
            oldest_open_payout_job_age_secs: 0,
        }
    }
}

/// How many of the things pass.
pub open spec fn count<T>(things: Seq<T>, passes: spec_fn(T) -> bool) -> nat
    decreases things.len(),
{
    if things.len() == 0 {
        0
    } else {
        count(things.drop_last(), passes) + if passes(things.last()) {
            1nat
        } else {
            0nat
        }
    }
}

/// No more pass than there are.
proof fn count_is_bounded<T>(things: Seq<T>, passes: spec_fn(T) -> bool)
    ensures
        count(things, passes) <= things.len(),
    decreases things.len(),
{
    if things.len() > 0 {
        count_is_bounded(things.drop_last(), passes);
    }
}

/// One more thing is counted if it passes.
proof fn count_next<T>(things: Seq<T>, passes: spec_fn(T) -> bool, at: int)
    requires
        0 <= at < things.len(),
    ensures
        count(things.take(at + 1), passes) == count(things.take(at), passes) + if passes(things[at]) {
            1nat
        } else {
            0nat
        },
        count(things.take(at), passes) <= at,
{
    assert(things.take(at + 1).drop_last() =~= things.take(at));
    count_is_bounded(things.take(at), passes);
}

/// The ticket is one of those, and paid for.
pub open spec fn is_paid_ticket(tickets: Seq<Ticket>, id: Uuid) -> bool {
    exists|i: int|
        0 <= i < tickets.len() && (#[trigger] tickets[i]).id == id && tickets[i].paid_at is Some
}

/// Whether the ticket is one of those, and paid for.
fn has_paid_ticket(tickets: &Vec<Ticket>, id: Uuid) -> (paid: bool)
    ensures
        paid == is_paid_ticket(tickets@, id),
{
    let mut i: usize = 0;
    while i < tickets.len()
        invariant
            i <= tickets@.len(),
            forall|j: int|
                0 <= j < i ==> !((#[trigger] tickets@[j]).id == id && tickets@[j].paid_at is Some),
        decreases tickets@.len() - i,
    {
        if tickets[i].id == id && tickets[i].paid_at.is_some() {
            return true;
        }
        i = i + 1;
    }
    false
}

/// What is counted, with one more of a kind: the kind's count is one higher, or the kind comes last
/// with one.
pub open spec fn one_more<K>(counts: Seq<(K, i64)>, kind: K, from: int) -> Seq<(K, i64)>
    decreases counts.len() - from,
{
    if from < 0 || from >= counts.len() {
        counts.push((kind, 1i64))
    } else if counts[from].0 == kind {
        counts.update(from, (kind, (counts[from].1 + 1) as i64))
    } else {
        one_more(counts, kind, from + 1)
    }
}

/// How many there are of each kind, in the order in which the kinds first come.
pub open spec fn tally<K>(kinds: Seq<K>) -> Seq<(K, i64)>
    decreases kinds.len(),
{
    if kinds.len() == 0 {
        Seq::empty()
    } else {
        one_more(tally(kinds.drop_last()), kinds.last(), 0)
    }
}

/// No kind is counted higher than `most`.
pub open spec fn counts_up_to<K>(counts: Seq<(K, i64)>, most: int) -> bool {
    forall|i: int| 0 <= i < counts.len() ==> 0 <= (#[trigger] counts[i]).1 <= most
}

/// How the tickets stand at the time `now`, in order.
pub open spec fn statuses_at(tickets: Seq<Ticket>, now: Timestamp) -> Seq<TicketStatus> {
    tickets.map_values(|ticket: Ticket| ticket.status_at(now as int))
}

/// Count one more ticket of a status.
fn count_status(counts: &mut Vec<(TicketStatus, i64)>, status: TicketStatus)
    requires
        counts_up_to(old(counts)@, i64::MAX - 1),
    ensures
        final(counts)@ == one_more(old(counts)@, status, 0),
        forall|most: int|
            0 < most && counts_up_to(old(counts)@, most - 1) ==> #[trigger] counts_up_to(
                final(counts)@,
                most,
            ),
{
    let ghost before = counts@;
    let mut i: usize = 0;
    while i < counts.len()
        invariant
            i <= counts@.len(),
            counts@ == before,
            before == old(counts)@,
            counts_up_to(before, i64::MAX - 1),
            one_more(before, status, 0) == one_more(before, status, i as int),
        decreases counts@.len() - i,
    {
        if counts[i].0 == status {
            let counted: i64 = counts[i].1;
            assert(before[i as int].1 <= i64::MAX - 1);
            counts.set(i, (status, counted + 1));
            assert(counts@ =~= before.update(i as int, (status, (counted + 1) as i64)));
            return;
        }
        i = i + 1;
    }
    counts.push((status, 1));
}

/// Count one more competition of a state.
fn count_state(counts: &mut Vec<(StatusKind, i64)>, kind: StatusKind)
    requires
        counts_up_to(old(counts)@, i64::MAX - 1),
    ensures
        final(counts)@ == one_more(old(counts)@, kind, 0),
        forall|most: int|
            0 < most && counts_up_to(old(counts)@, most - 1) ==> #[trigger] counts_up_to(
                final(counts)@,
                most,
            ),
{
    let ghost before = counts@;
    let mut i: usize = 0;
    while i < counts.len()
        invariant
            i <= counts@.len(),
            counts@ == before,
            before == old(counts)@,
            counts_up_to(before, i64::MAX - 1),
            one_more(before, kind, 0) == one_more(before, kind, i as int),
        decreases counts@.len() - i,
    {
        if counts[i].0 == kind {
            let counted: i64 = counts[i].1;
            assert(before[i as int].1 <= i64::MAX - 1);
            counts.set(i, (kind, counted + 1));
            assert(counts@ =~= before.update(i as int, (kind, (counted + 1) as i64)));
            return;
        }
        i = i + 1;
    }
    counts.push((kind, 1));
}

/// How many tickets stand in each way, in the order in which the ways first come.
fn count_tickets(tickets: &Vec<Ticket>, now: Timestamp) -> (counts: Vec<(TicketStatus, i64)>)
    requires
        is_datetime(now as int),
        tickets@.len() < i64::MAX,
    ensures
        counts@ == tally(statuses_at(tickets@, now)),
{
    let ghost statuses = statuses_at(tickets@, now);
    let mut counts: Vec<(TicketStatus, i64)> = Vec::new();
    let mut i: usize = 0;
    assert(statuses.take(0) =~= Seq::empty());
    while i < tickets.len()
        invariant
            i <= tickets@.len(),
            is_datetime(now as int),
            tickets@.len() < i64::MAX,
            statuses == statuses_at(tickets@, now),
            counts@ == tally(statuses.take(i as int)),
            counts_up_to(counts@, i as int),
        decreases tickets@.len() - i,
    {
        assert(statuses.take(i + 1).drop_last() =~= statuses.take(i as int));
        count_status(&mut counts, tickets[i].get_status(now));
        assert(counts_up_to(counts@, i + 1));
        i = i + 1;
    }
    assert(statuses.take(i as int) =~= statuses);
    counts
}

/// The states of competitions, in order.
pub open spec fn kinds_of(statuses: Seq<CompetitionStatus>) -> Seq<StatusKind> {
    statuses.map_values(|status: CompetitionStatus| status.which())
}

/// How many competitions are in each state, in the order in which the states first come.
pub fn competition_state_counts(statuses: &Vec<CompetitionStatus>) -> (counts: Vec<(StatusKind, i64)>)
    requires
        statuses@.len() < i64::MAX,
    ensures
        counts@ == tally(kinds_of(statuses@)),
{
    let ghost kinds = kinds_of(statuses@);
    let mut counts: Vec<(StatusKind, i64)> = Vec::new();
    let mut i: usize = 0;
    assert(kinds.take(0) =~= Seq::empty());
    while i < statuses.len()
        invariant
            i <= statuses@.len(),
            statuses@.len() < i64::MAX,
            kinds == kinds_of(statuses@),
            counts@ == tally(kinds.take(i as int)),
            counts_up_to(counts@, i as int),
        decreases statuses@.len() - i,
    {
        assert(kinds.take(i + 1).drop_last() =~= kinds.take(i as int));
        count_state(&mut counts, statuses[i].kind());
        assert(counts_up_to(counts@, i + 1));
        i = i + 1;
    }
    assert(kinds.take(i as int) =~= kinds);
    counts
}

/// When the oldest of the first `upto` open claims was made.
pub open spec fn oldest_open(jobs: Seq<PayoutJob>, upto: int) -> Option<i64>
    decreases upto,
{
    if upto <= 0 {
        None
    } else {
        let earlier = oldest_open(jobs, upto - 1);
        let job = jobs[upto - 1];
        if !job.is_open() {
            earlier
        } else {
            match earlier {
                Some(at) => if at <= job.created_at {
                    Some(at)
                } else {
                    Some(job.created_at)
                },
                None => Some(job.created_at),
            }
        }
    }
}

/// How old something is in seconds that was made at `created`, and not less than 0.
pub open spec fn age(created: Option<i64>, now: int) -> int {
    match created {
        None => 0,
        Some(at) => if now <= at {
            0
        } else if now - at > i64::MAX {
            i64::MAX as int
        } else {
            now - at
        },
    }
}

/// Whether the payment was made.
pub open spec fn has_succeeded(payout: Payout) -> bool {
    payout.succeed_at is Some
}

/// Whether it is not known yet what comes of the payment.
pub open spec fn is_undecided(payout: Payout) -> bool {
    payout.succeed_at is None && payout.failed_at is None
}

/// Counts of entries, tickets, payments and claims at the time `now`.
pub fn store_counts(
    entries: &Vec<UserEntry>,
    tickets: &Vec<Ticket>,
    payouts: &Vec<Payout>,
    jobs: &Vec<PayoutJob>,
    now: Timestamp,
) -> (counts: StoreCounts)
    requires
        is_datetime(now as int),
        entries@.len() < i64::MAX,
        tickets@.len() < i64::MAX,
        payouts@.len() < i64::MAX,
        jobs@.len() < i64::MAX,
    ensures
        counts.entries_paid == count(
            entries@,
            |entry: UserEntry| is_paid_ticket(tickets@, entry.ticket_id),
        ),
        counts.entries_signed == count(entries@, |entry: UserEntry| entry.signed_at is Some),
        counts.tickets@ == tally(statuses_at(tickets@, now)),
        counts.payouts_pending == count(payouts@, |payout: Payout| is_undecided(payout)),
        counts.payouts_succeeded == count(payouts@, |payout: Payout| has_succeeded(payout)),
        counts.payouts_failed == count(payouts@, |payout: Payout| payout.is_lost()),
        counts.payout_jobs_open == count(jobs@, |job: PayoutJob| job.is_open()),
        counts.payout_jobs_failed == count(jobs@, |job: PayoutJob| job.failed_at is Some),
        counts.payout_jobs_retrying == count(
            jobs@,
            |job: PayoutJob| job.is_open() && job.attempts > 0,
        ),
        counts.oldest_open_payout_job_age_secs == age(
            oldest_open(jobs@, jobs@.len() as int),
            whole_seconds(now as int),
        ),
{
    let mut counts = StoreCounts::default();
    counts.tickets = count_tickets(tickets, now);
    let ghost paid = |entry: UserEntry| is_paid_ticket(tickets@, entry.ticket_id);
    let ghost signed = |entry: UserEntry| entry.signed_at is Some;
    let mut entries_paid: i64 = 0;
    let mut entries_signed: i64 = 0;
    let mut i: usize = 0;
    assert(entries@.take(0) =~= Seq::empty());
    while i < entries.len()
        invariant
            i <= entries@.len(),
            entries@.len() < i64::MAX,
            paid == (|entry: UserEntry| is_paid_ticket(tickets@, entry.ticket_id)),
            signed == (|entry: UserEntry| entry.signed_at is Some),
            entries_paid == count(entries@.take(i as int), paid),
            entries_signed == count(entries@.take(i as int), signed),
        decreases entries@.len() - i,
    {
        proof {
            count_next(entries@, paid, i as int);
            count_next(entries@, signed, i as int);
        }
        if has_paid_ticket(tickets, entries[i].ticket_id) {
            entries_paid = entries_paid + 1;
        }
        if entries[i].signed_at.is_some() {
            entries_signed = entries_signed + 1;
        }
        i = i + 1;
    }
    assert(entries@.take(i as int) =~= entries@);
    counts.entries_paid = entries_paid;
    counts.entries_signed = entries_signed;

    let ghost pending = |payout: Payout| is_undecided(payout);
    let ghost succeeded = |payout: Payout| has_succeeded(payout);
    let ghost lost = |payout: Payout| payout.is_lost();
    let mut payouts_pending: i64 = 0;
    let mut payouts_succeeded: i64 = 0;
    let mut payouts_failed: i64 = 0;
    let mut p: usize = 0;
    assert(payouts@.take(0) =~= Seq::empty());
    while p < payouts.len()
        invariant
            p <= payouts@.len(),
            payouts@.len() < i64::MAX,
            pending == (|payout: Payout| is_undecided(payout)),
            succeeded == (|payout: Payout| has_succeeded(payout)),
            lost == (|payout: Payout| payout.is_lost()),
            payouts_pending == count(payouts@.take(p as int), pending),
            payouts_succeeded == count(payouts@.take(p as int), succeeded),
            payouts_failed == count(payouts@.take(p as int), lost),
        decreases payouts@.len() - p,
    {
        proof {
            count_next(payouts@, pending, p as int);
            count_next(payouts@, succeeded, p as int);
            count_next(payouts@, lost, p as int);
        }
        if payouts[p].succeed_at.is_some() {
            payouts_succeeded = payouts_succeeded + 1;
        } else if payouts[p].failed_at.is_some() {
            payouts_failed = payouts_failed + 1;
        } else {
            payouts_pending = payouts_pending + 1;
        }
        p = p + 1;
    }
    assert(payouts@.take(p as int) =~= payouts@);
    counts.payouts_pending = payouts_pending;
    counts.payouts_succeeded = payouts_succeeded;
    counts.payouts_failed = payouts_failed;

    let ghost open = |job: PayoutJob| job.is_open();
    let ghost failed = |job: PayoutJob| job.failed_at is Some;
    let ghost retrying = |job: PayoutJob| job.is_open() && job.attempts > 0;
    let mut jobs_open: i64 = 0;
    let mut jobs_failed: i64 = 0;
    let mut jobs_retrying: i64 = 0;
    let mut oldest: Option<i64> = None;
    let mut j: usize = 0;
    assert(jobs@.take(0) =~= Seq::empty());
    while j < jobs.len()
        invariant
            j <= jobs@.len(),
            jobs@.len() < i64::MAX,
            open == (|job: PayoutJob| job.is_open()),
            failed == (|job: PayoutJob| job.failed_at is Some),
            retrying == (|job: PayoutJob| job.is_open() && job.attempts > 0),
            jobs_open == count(jobs@.take(j as int), open),
            jobs_failed == count(jobs@.take(j as int), failed),
            jobs_retrying == count(jobs@.take(j as int), retrying),
            oldest == oldest_open(jobs@, j as int),
        decreases jobs@.len() - j,
    {
        proof {
            count_next(jobs@, open, j as int);
            count_next(jobs@, failed, j as int);
            count_next(jobs@, retrying, j as int);
        }
        let job = &jobs[j];
        if job.failed_at.is_some() {
            jobs_failed = jobs_failed + 1;
        } else if job.completed_at.is_none() {
            jobs_open = jobs_open + 1;
            if job.attempts > 0 {
                jobs_retrying = jobs_retrying + 1;
            }
            oldest = match oldest {
                Some(at) => if at <= job.created_at {
                    Some(at)
                } else {
                    Some(job.created_at)
                },
                None => Some(job.created_at),
            };
        }
        j = j + 1;
    }
    assert(jobs@.take(j as int) =~= jobs@);
    counts.payout_jobs_open = jobs_open;
    counts.payout_jobs_failed = jobs_failed;
    counts.payout_jobs_retrying = jobs_retrying;
    let present: i64 = unix_timestamp(now);
    counts.oldest_open_payout_job_age_secs = match oldest {
        None => 0,
        Some(at) => if present <= at {
            0
        } else {
            match present.checked_sub(at) {
                Some(age) => age,
                None => i64::MAX,
            }
        },
    };
    counts
}

/// Every payment is counted once: it is pending, or it succeeded, or it failed.
pub proof fn every_payment_is_counted_once(payouts: Seq<Payout>)
    ensures
        count(payouts, |payout: Payout| is_undecided(payout)) + count(
            payouts,
            |payout: Payout| has_succeeded(payout),
        ) + count(payouts, |payout: Payout| payout.is_lost()) == payouts.len(),
    decreases payouts.len(),
{
    if payouts.len() > 0 {
        every_payment_is_counted_once(payouts.drop_last());
    }
}

} // verus!
