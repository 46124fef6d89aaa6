//! What holds of coordinators that share their work: who may do what, when they try again, and what
//! they tell each other and whoever watches them.

use crate::advance::{due, next_step, opens, unstranded, Opening};
use crate::clock::{HOUR, Timestamp};
use crate::competition::{Competition, Uuid};
use crate::entries::Ticket;
use crate::lease::{granted, holds, millis, released, renewed, Lease, LeaseRowView, LeaseView};
use crate::metrics::{
    age, count, has_succeeded, is_paid_ticket, is_undecided, kinds_of, oldest_open, one_more,
    statuses_at, tally,
};
use crate::payout_jobs::{Payout, PayoutJob};
use crate::runners::{
    backoff_after, Pacing, Runner, RunnerAction, RunnerEvent, Step, StepError, Wait,
};
use crate::states::{AwaitingAttestation, CompetitionStatus, StatusKind};
use crate::wakes::{kept_wakes, woken_by_others, Wake};
use crate::workers::{
    answer, held_after_tick, held_token, lease_to_release, tick_lease, WorkerLeases,
};
use vstd::arithmetic::power2::pow2;
use vstd::prelude::*;

verus! {

/// A resource is granted exactly if nobody holds it any more, or the one who asks does. It is then
/// theirs until the time that they asked for, with a token that only a change of holder raises.
pub proof fn free_resources_are_granted(
    row: Option<LeaseRowView>,
    resource: Seq<char>,
    holder: Seq<char>,
    expires_at: int,
    now: int,
)
    requires
        row matches Some(stored) ==> stored.resource == resource,
    ensures
        granted(row, resource, holder, expires_at, now) is Some == (row is None || (row->0).holder
            == holder || (row->0).expires_at <= now),
        granted(row, resource, holder, expires_at, now) matches Some(taken) ==> {
            &&& taken.resource == resource
            &&& taken.holder == holder
            &&& taken.expires_at == expires_at
            &&& row is None ==> taken.token == 1
            &&& row matches Some(stored) ==> taken.token >= stored.token && (taken.token
                == stored.token) == (stored.holder == holder)
        },
{
}

/// A lease is renewed or released exactly if it is the one that is stored, with its resource, holder
/// and token; neither changes anything but its expiry, and no other lease changes anything.
pub proof fn only_the_stored_lease_counts(
    row: LeaseRowView,
    lease: LeaseView,
    expires_at: int,
    other: Seq<char>,
    until: int,
    now: int,
)
    ensures
        holds(Some(row), lease) == (row.resource == lease.resource && row.holder == lease.holder
            && row.token == lease.token),
        !holds(None, lease),
        renewed(Some(row), lease, expires_at) matches Some(kept) && kept.resource == row.resource
            && kept.holder == row.holder && kept.token == row.token && kept.expires_at == if holds(
            Some(row),
            lease,
        ) {
            expires_at
        } else {
            row.expires_at
        },
        released(Some(row), lease) matches Some(left) && left.resource == row.resource && left.holder
            == row.holder && left.token == row.token && (!holds(Some(row), lease)
            ==> left.expires_at == row.expires_at),
        holds(Some(row), lease) && now >= 0 ==> granted(
            released(Some(row), lease),
            row.resource,
            other,
            until,
            now,
        ) is Some,
        renewed(None, lease, expires_at) is None,
        released(None, lease) is None,
{
}

/// A time is told in whole milliseconds, rounded toward the epoch: never further from it than it is,
/// and less than a millisecond nearer.
pub proof fn milliseconds_round_toward_the_epoch(at: int)
    ensures
        at >= 0 ==> millis(at) * 1_000_000 <= at < millis(at) * 1_000_000 + 1_000_000,
        millis(-at) == -millis(at),
{
}

/// A tick works under a lease exactly if one was granted, with the token that was granted, for the
/// worker and its process; what is held of other workers stays as it was.
pub proof fn ticks_work_under_what_was_granted(
    holder: Seq<char>,
    held: Map<Seq<char>, i64>,
    worker: Seq<char>,
    granted: Option<Option<i64>>,
    other: Seq<char>,
)
    requires
        other != "worker:"@ + worker,
    ensures
        tick_lease(holder, worker, granted) is Some == (granted is Some && granted->0 is Some),
        tick_lease(holder, worker, granted) matches Some(lease) ==> lease.holder == holder
            && lease.resource == "worker:"@ + worker && lease.token == granted->0->0,
        ({
            let after = held_after_tick(held, worker, granted);
            let resource = "worker:"@ + worker;
            &&& after.contains_key(other) == held.contains_key(other)
            &&& held.contains_key(other) ==> after[other] == held[other]
            &&& granted is None ==> after == held
            &&& granted is Some ==> after.contains_key(resource) == (granted->0 is Some)
            &&& granted is Some && granted->0 is Some ==> after[resource] == granted->0->0
        }),
{
}

/// Stopping, a worker gives up exactly the lease that is held on it.
pub proof fn stopping_gives_up_what_is_held(
    holder: Seq<char>,
    held: Map<Seq<char>, i64>,
    worker: Seq<char>,
)
    ensures
        lease_to_release(holder, held, worker) is Some == held.contains_key("worker:"@ + worker),
        lease_to_release(holder, held, worker) matches Some(lease) ==> lease.holder == holder
            && lease.resource == "worker:"@ + worker && lease.token == held["worker:"@ + worker],
        forall|resource: Seq<char>| #[trigger]
            held_token(held, resource) is Some == held.contains_key(resource),
        forall|resource: Seq<char>|
            held.contains_key(resource) ==> #[trigger] held_token(held, resource) == Some(
                held[resource],
            ),
{
}

/// Who asks for a worker's lease is answered with the token of the lease that they then hold, or that
/// another process holds it.
pub proof fn answers_tell_the_token(
    row: Option<LeaseRowView>,
    worker: Seq<char>,
    holder: Seq<char>,
    expires_at: int,
    now: int,
)
    requires
        row matches Some(stored) ==> stored.resource == "worker:"@ + worker && i64::MIN
            <= stored.token < i64::MAX,
    ensures
        ({
            let free = row is None || (row->0).holder == holder || (row->0).expires_at <= now;
            let told = answer(row, worker, holder, expires_at, now);
            &&& told is Some
            &&& told->0 is Some == free
            &&& free && row is None ==> told->0->0 == 1
            &&& free && row is Some && (row->0).holder == holder ==> told->0->0 == (row->0).token
            &&& free && row is Some && (row->0).holder != holder ==> told->0->0 > (row->0).token
        }),
{
}

/// What a process hands over on shutdown are the leases that it holds: each resource with its token
/// and in the process's name, and no other.
pub proof fn everything_held_is_handed_over(
    process: WorkerLeases,
    leases: Seq<Lease>,
    resource: Seq<char>,
    token: i64,
)
    requires
        process.hands_over(leases),
    ensures
        process.held().contains_pair(resource, token) == (exists|i: int|
            0 <= i < leases.len() && (#[trigger] leases[i]).resource@ == resource && leases[i].token
                == token),
        forall|i: int|
            0 <= i < leases.len() ==> (#[trigger] leases[i]).holder@ == process.holder@,
        forall|i: int, j: int|
            0 <= i < j < leases.len() ==> (#[trigger] leases[i]).resource@ != (
            #[trigger] leases[j]).resource@,
{
    assert forall|i: int| 0 <= i < leases.len() implies (#[trigger] leases[i]).holder@
        == process.holder@ by {
        assert(leases[i]@ == process.lease(leases[i].resource@, leases[i].token));
    }
    if process.held().contains_pair(resource, token) {
        assert(process.held().contains_key(resource));
        let i = choose|i: int| 0 <= i < leases.len() && (#[trigger] leases[i]).resource@ == resource;
        assert(process.held().contains_pair(leases[i].resource@, leases[i].token));
        assert(leases[i].token == token);
    }
}

/// The wait after the first failure is five seconds, and each further one in a row doubles it up to
/// the sixteenth doubling; from then on it stays. It is cut off at the longest.
pub proof fn waits_double_with_each_failure(failures: nat, longest: nat)
    requires
        failures >= 1,
    ensures
        backoff_after(1, longest) == if longest < 5_000_000_000 {
            longest
        } else {
            5_000_000_000
        },
        failures <= 16 ==> backoff_after(failures + 1, longest) == if 2 * backoff_after(
            failures,
            longest,
        ) < longest {
            2 * backoff_after(failures, longest)
        } else {
            longest
        },
        failures >= 17 ==> backoff_after(failures + 1, longest) == backoff_after(failures, longest),
{
    vstd::arithmetic::power2::lemma2_to64();
    if failures <= 16 {
        let n = (failures - 1) as nat;
        vstd::arithmetic::power2::lemma_pow2_unfold((n + 1) as nat);
        assert(pow2((n + 1) as nat) == 2 * pow2(n));
        vstd::arithmetic::power2::lemma_pow2_pos(n);
    }
}

/// Failures are counted until a step completes, and immediate steps until the runner sleeps or fails;
/// nothing else changes either count.
pub proof fn runners_count_their_failures(
    before: Runner,
    after: Runner,
    event: RunnerEvent,
    pacing: Pacing,
    now: Timestamp,
    action: RunnerAction,
)
    requires
        after.reacts(before, event, pacing, now, action),
    ensures
        event is AcquireFailed || (event matches RunnerEvent::StepFailed(StepError::Failed(_)))
            ==> after.failures == if before.failures == u32::MAX {
            u32::MAX as int
        } else {
            before.failures + 1
        },
        (event matches RunnerEvent::Stepped(Step::Next(_))) ==> after.failures == 0,
        !(event is AcquireFailed || event is Stepped || event is StepFailed) ==> after.failures
            == before.failures && after.immediate == before.immediate,
        (event matches RunnerEvent::StepFailed(StepError::LeaseLost)) ==> after.failures
            == before.failures,
        event is StepFailed ==> after.immediate == 0,
        (event matches RunnerEvent::Stepped(Step::Next(Wait::Until(_)))) ==> after.immediate == 0,
        (event matches RunnerEvent::Stepped(Step::Next(Wait::Now))) ==> after.immediate
            == before.immediate + 1 || after.immediate == 0,
        after.finished == (before.finished || (event matches RunnerEvent::Stepped(Step::Finished))),
{
}

/// A runner holds a lease once it took it, until it is held elsewhere or lost.
pub proof fn runners_hold_what_they_took(
    before: Runner,
    after: Runner,
    event: RunnerEvent,
    pacing: Pacing,
    now: Timestamp,
    action: RunnerAction,
)
    requires
        after.reacts(before, event, pacing, now, action),
    ensures
        event matches RunnerEvent::Taken(lease) ==> after.lease == Some(lease),
        event is HeldElsewhere || event is AcquireFailed || event is LostWhileIdle || (
        event matches RunnerEvent::StepFailed(StepError::LeaseLost)) ==> after.lease is None,
        event is Awake || event is Shutdown || event is Stepped || (
        event matches RunnerEvent::StepFailed(StepError::Failed(_))) ==> after.lease == before.lease,
{
}

/// What a runner waits for: a lease that is held elsewhere is asked for again after the retry time, a
/// state is checked when it asks for it, a failure waits for the backoff of all failures in a row, and
/// one that keeps asking to run at once yields for the idle time. It stops when it is finished or
/// shut down, and only then.
pub proof fn runners_wait_as_long_as_they_should(
    before: Runner,
    after: Runner,
    event: RunnerEvent,
    pacing: Pacing,
    now: Timestamp,
    action: RunnerAction,
)
    requires
        after.reacts(before, event, pacing, now, action),
        crate::clock::is_datetime(now as int),
    ensures
        action is Stop == (event is Shutdown || (event matches RunnerEvent::Stepped(
            Step::Finished,
        ))),
        event is HeldElsewhere || (event matches RunnerEvent::StepFailed(StepError::LeaseLost))
            ==> action == RunnerAction::Sleep(pacing.lease_retry),
        event matches RunnerEvent::Stepped(Step::Next(Wait::Until(deadline))) ==> action
            == RunnerAction::SleepUntil(deadline),
        event is AcquireFailed ==> (action matches RunnerAction::Sleep(span) && span
            == backoff_after(after.failures as nat, pacing.max_backoff as nat)),
        (event matches RunnerEvent::StepFailed(StepError::Failed(_))) ==> (
        action matches RunnerAction::SleepUntil(at) && at - now == backoff_after(
            after.failures as nat,
            pacing.max_backoff as nat,
        )),
        (event matches RunnerEvent::Stepped(Step::Next(Wait::Now))) && before.immediate
            >= pacing.max_immediate_steps ==> (action matches RunnerAction::SleepUntil(at) && at
            - now == pacing.idle),
        (event matches RunnerEvent::Stepped(Step::Next(Wait::Now))) && before.immediate
            < pacing.max_immediate_steps ==> after.immediate == before.immediate + 1 && (action is Step
            || action is Acquire),
        event is Taken ==> action is Step,
        event is LostWhileIdle ==> action is Acquire,
        event is Awake ==> (action is Step) == (before.lease is Some) && (action is Acquire) == (
        before.lease is None),
{
}

/// What a coordinator reads are the competitions of exactly the wakes that others recorded since, in
/// the order in which they were recorded.
pub proof fn others_wakes_are_read_once(wakes: Seq<Wake>, after: int, origin: Seq<char>)
    ensures
        woken_by_others(wakes, after, origin) == wakes.filter(
            |wake: Wake| wake.seq > after && wake.origin@ != origin,
        ).map_values(|wake: Wake| wake.competition_id),
    decreases wakes.len(),
{
    let read = |wake: Wake| wake.seq > after && wake.origin@ != origin;
    let id = |wake: Wake| wake.competition_id;
    reveal(Seq::filter);
    if wakes.len() > 0 {
        others_wakes_are_read_once(wakes.drop_last(), after, origin);
        if read(wakes.last()) {
            assert(wakes.drop_last().filter(read).push(wakes.last()).map_values(id)
                =~= wakes.drop_last().filter(read).map_values(id).push(id(wakes.last())));
        }
    } else {
        assert(wakes.filter(read).map_values(id) =~= Seq::empty());
    }
}

/// What is read up to a wake and what is read from it on is what is read at once: nothing is missed
/// and nothing comes twice.
pub proof fn reading_goes_on_where_it_stopped(
    wakes: Seq<Wake>,
    after: int,
    read: int,
    origin: Seq<char>,
)
    requires
        after <= read,
        forall|i: int, j: int|
            0 <= i < j < wakes.len() ==> (#[trigger] wakes[i]).seq < (#[trigger] wakes[j]).seq,
    ensures
        woken_by_others(wakes, after, origin) == woken_by_others(
            wakes.filter(|wake: Wake| wake.seq <= read),
            after,
            origin,
        ) + woken_by_others(wakes, read, origin),
    decreases wakes.len(),
{
    let early = |wake: Wake| wake.seq <= read;
    reveal(Seq::filter);
    if wakes.len() > 0 {
        let fewer = wakes.drop_last();
        assert forall|i: int, j: int| 0 <= i < j < fewer.len() implies (#[trigger] fewer[i]).seq < (
        #[trigger] fewer[j]).seq by {
            assert(wakes[i].seq < wakes[j].seq);
        }
        reading_goes_on_where_it_stopped(fewer, after, read, origin);
        let last = wakes.last();
        if early(last) {
            assert(wakes.filter(early) == fewer.filter(early).push(last));
            assert(fewer.filter(early).push(last).drop_last() =~= fewer.filter(early));
            nothing_after(fewer, read, origin, last);
            assert(woken_by_others(wakes, read, origin) =~= Seq::empty());
        } else {
            assert(wakes.filter(early) == fewer.filter(early));
        }
    }
}

/// Wakes before one that was read are not read again.
proof fn nothing_after(wakes: Seq<Wake>, read: int, origin: Seq<char>, last: Wake)
    requires
        last.seq <= read,
        forall|i: int| 0 <= i < wakes.len() ==> (#[trigger] wakes[i]).seq < last.seq,
    ensures
        woken_by_others(wakes, read, origin) == Seq::<Uuid>::empty(),
    decreases wakes.len(),
{
    if wakes.len() > 0 {
        let fewer = wakes.drop_last();
        assert forall|i: int| 0 <= i < fewer.len() implies (#[trigger] fewer[i]).seq < last.seq by {
            assert(wakes[i].seq < last.seq);
        }
        nothing_after(fewer, read, origin, last);
        assert(wakes[wakes.len() - 1].seq < last.seq);
    }
}

/// A wake is kept exactly if it is not older than it may be.
pub proof fn recent_wakes_are_kept(wakes: Seq<Wake>, before: int, wake: Wake)
    ensures
        kept_wakes(wakes, before).contains(wake) == (wakes.contains(wake) && wake.woken_at
            >= before),
{
    let recent = |wake: Wake| wake.woken_at >= before;
    broadcast use vstd::seq_lib::group_filter_ensures;

    let kept = wakes.filter(recent);
    if kept.contains(wake) {
        let i = choose|i: int| 0 <= i < kept.len() && kept[i] == wake;
        assert(recent(kept[i]));
        kept_comes_from(wakes, recent, i);
    }
    if wakes.contains(wake) && wake.woken_at >= before {
        let i = choose|i: int| 0 <= i < wakes.len() && wakes[i] == wake;
        assert(recent(wakes[i]));
    }
}

/// What a filter leaves was there.
proof fn kept_comes_from(wakes: Seq<Wake>, keeps: spec_fn(Wake) -> bool, at: int)
    requires
        0 <= at < wakes.filter(keeps).len(),
    ensures
        wakes.contains(wakes.filter(keeps)[at]),
    decreases wakes.len(),
{
    reveal(Seq::filter);
    if wakes.len() > 0 {
        let fewer = wakes.drop_last();
        if at < fewer.filter(keeps).len() {
            kept_comes_from(fewer, keeps, at);
            let i = choose|i: int| 0 <= i < fewer.len() && fewer[i] == fewer.filter(keeps)[at];
            assert(wakes[i] == wakes.filter(keeps)[at]);
        } else {
            assert(wakes[wakes.len() - 1] == wakes.filter(keeps)[at]);
        }
    }
}

/// What is counted is what passes, and nothing else.
pub proof fn counts_are_of_what_passes<T>(things: Seq<T>, passes: spec_fn(T) -> bool)
    ensures
        count(things, passes) == things.filter(passes).len(),
    decreases things.len(),
{
    reveal(Seq::filter);
    if things.len() > 0 {
        counts_are_of_what_passes(things.drop_last(), passes);
    }
}

/// A payment has succeeded once it is recorded, has failed if that is recorded and no success is, and
/// is pending while neither is; a claim is open while it is neither completed nor failed.
pub proof fn payments_stand_as_they_are_recorded(payout: Payout, job: PayoutJob)
    ensures
        has_succeeded(payout) == (payout.succeed_at is Some),
        payout.is_lost() == (payout.succeed_at is None && payout.failed_at is Some),
        is_undecided(payout) == (payout.succeed_at is None && payout.failed_at is None),
        job.is_open() == (job.completed_at is None && job.failed_at is None),
{
}

/// A ticket counts as paid exactly if one with its id has a time of payment.
pub proof fn paid_tickets_have_a_payment(tickets: Seq<Ticket>, at: int)
    requires
        0 <= at < tickets.len(),
        forall|i: int, j: int|
            0 <= i < j < tickets.len() ==> (#[trigger] tickets[i]).id != (#[trigger] tickets[j]).id,
    ensures
        is_paid_ticket(tickets, tickets[at].id) == (tickets[at].paid_at is Some),
{
    if is_paid_ticket(tickets, tickets[at].id) {
        let i = choose|i: int|
            0 <= i < tickets.len() && (#[trigger] tickets[i]).id == tickets[at].id
                && tickets[i].paid_at is Some;
        assert(i == at);
    }
}

/// How often a kind comes.
pub open spec fn comes<K>(kinds: Seq<K>, kind: K) -> nat {
    kinds.filter(|one: K| one == kind).len()
}

/// One more of a kind raises that kind's count by one and leaves every other's.
proof fn one_more_is_counted<K>(counts: Seq<(K, i64)>, kind: K, from: int)
    requires
        0 <= from <= counts.len(),
        forall|i: int| 0 <= i < from ==> (#[trigger] counts[i]).0 != kind,
    ensures
        ({
            let after = one_more(counts, kind, from);
            ||| {
                &&& forall|i: int| 0 <= i < counts.len() ==> (#[trigger] counts[i]).0 != kind
                &&& after == counts.push((kind, 1i64))
            }
            ||| exists|at: int|
                0 <= at < counts.len() && (#[trigger] counts[at]).0 == kind && after
                    == counts.update(at, (kind, (counts[at].1 + 1) as i64))
        }),
    decreases counts.len() - from,
{
    if from < counts.len() && counts[from].0 != kind {
        one_more_is_counted(counts, kind, from + 1);
    }
}

/// Each kind that comes is told once, with how often it comes, and no other is told.
pub proof fn kinds_are_tallied<K>(kinds: Seq<K>)
    requires
        kinds.len() < i64::MAX,
    ensures
        forall|i: int|
            0 <= i < tally(kinds).len() ==> (#[trigger] tally(kinds)[i]).1 == comes(
                kinds,
                tally(kinds)[i].0,
            ) && tally(kinds)[i].1 > 0,
        forall|i: int, j: int|
            0 <= i < j < tally(kinds).len() ==> (#[trigger] tally(kinds)[i]).0 != (
            #[trigger] tally(kinds)[j]).0,
        forall|k: int|
            0 <= k < kinds.len() ==> exists|i: int|
                0 <= i < tally(kinds).len() && (#[trigger] tally(kinds)[i]).0 == #[trigger] kinds[k],
    decreases kinds.len(),
{
    reveal(Seq::filter);
    if kinds.len() > 0 {
        let fewer = kinds.drop_last();
        let kind = kinds.last();
        kinds_are_tallied(fewer);
        let before = tally(fewer);
        let after = tally(kinds);
        one_more_is_counted(before, kind, 0);
        assert forall|other: K| #[trigger]
            comes(kinds, other) == comes(fewer, other) + if other == kind {
                1nat
            } else {
                0nat
            } by {}
        if forall|i: int| 0 <= i < before.len() ==> (#[trigger] before[i]).0 != kind {
            if fewer.contains(kind) {
                let k = choose|k: int| 0 <= k < fewer.len() && fewer[k] == kind;
                assert(exists|i: int|
                    0 <= i < before.len() && (#[trigger] before[i]).0 == fewer[k]);
            }
            never_comes(fewer, kind);
            assert(after == before.push((kind, 1i64)));
            assert(comes(kinds, kind) == 1);
            assert forall|i: int| 0 <= i < after.len() implies (#[trigger] after[i]).1 == comes(
                kinds,
                after[i].0,
            ) && after[i].1 > 0 by {
                if i < before.len() {
                    assert(after[i] == before[i]);
                }
            }
            assert forall|k: int| 0 <= k < kinds.len() implies exists|i: int|
                0 <= i < after.len() && (#[trigger] after[i]).0 == #[trigger] kinds[k] by {
                if k < fewer.len() {
                    assert(fewer[k] == kinds[k]);
                    let i = choose|i: int|
                        0 <= i < before.len() && (#[trigger] before[i]).0 == fewer[k];
                    assert(after[i] == before[i]);
                } else {
                    assert(after[before.len() as int].0 == kinds[k]);
                }
            }
        } else {
            let at = choose|at: int|
                0 <= at < before.len() && (#[trigger] before[at]).0 == kind && after
                    == before.update(at, (kind, (before[at].1 + 1) as i64));
            comes_no_more_than_there_are(fewer, kind);
            assert(before[at].1 == comes(fewer, before[at].0));
            assert(after[at].1 == before[at].1 + 1);
            assert forall|i: int| 0 <= i < after.len() implies (#[trigger] after[i]).1 == comes(
                kinds,
                after[i].0,
            ) && after[i].1 > 0 by {
                if i != at {
                    assert(after[i] == before[i]);
                    assert(before[i].0 != before[at].0);
                }
            }
            assert forall|i: int, j: int| 0 <= i < j < after.len() implies (#[trigger] after[i]).0
                != (#[trigger] after[j]).0 by {
                assert(before[i].0 != before[j].0);
            }
            assert forall|k: int| 0 <= k < kinds.len() implies exists|i: int|
                0 <= i < after.len() && (#[trigger] after[i]).0 == #[trigger] kinds[k] by {
                if k < fewer.len() {
                    assert(fewer[k] == kinds[k]);
                    let i = choose|i: int|
                        0 <= i < before.len() && (#[trigger] before[i]).0 == fewer[k];
                    assert(after[i].0 == before[i].0);
                } else {
                    assert(after[at].0 == kinds[k]);
                }
            }
        }
    }
}

/// What comes is no more often there than anything is.
proof fn comes_no_more_than_there_are<K>(kinds: Seq<K>, kind: K)
    ensures
        comes(kinds, kind) <= kinds.len(),
    decreases kinds.len(),
{
    reveal(Seq::filter);
    if kinds.len() > 0 {
        comes_no_more_than_there_are(kinds.drop_last(), kind);
    }
}

/// A kind that is not told never comes.
proof fn never_comes<K>(kinds: Seq<K>, kind: K)
    requires
        !kinds.contains(kind),
    ensures
        comes(kinds, kind) == 0,
    decreases kinds.len(),
{
    reveal(Seq::filter);
    if kinds.len() > 0 {
        let fewer = kinds.drop_last();
        if fewer.contains(kind) {
            let k = choose|k: int| 0 <= k < fewer.len() && fewer[k] == kind;
            assert(kinds[k] == kind);
        }
        never_comes(fewer, kind);
        assert(kinds[kinds.len() - 1] != kind);
    }
}

/// What is tallied of tickets and competitions is how each of them stands.
pub proof fn each_is_tallied_as_it_stands(
    tickets: Seq<Ticket>,
    now: Timestamp,
    statuses: Seq<CompetitionStatus>,
)
    ensures
        statuses_at(tickets, now).len() == tickets.len(),
        forall|i: int|
            0 <= i < tickets.len() ==> #[trigger] statuses_at(tickets, now)[i]
                == tickets[i].status_at(now as int),
        kinds_of(statuses).len() == statuses.len(),
        forall|i: int|
            0 <= i < statuses.len() ==> #[trigger] kinds_of(statuses)[i] == statuses[i].which(),
{
}

/// The oldest open claim is open, and none that is open is older; there is none exactly if none is
/// open.
pub proof fn the_oldest_open_claim_is_found(jobs: Seq<PayoutJob>, upto: int)
    requires
        0 <= upto <= jobs.len(),
    ensures
        match oldest_open(jobs, upto) {
            Some(at) => {
                &&& forall|i: int|
                    0 <= i < upto && (#[trigger] jobs[i]).completed_at is None && jobs[i].failed_at
                        is None ==> at <= jobs[i].created_at
                &&& exists|i: int|
                    0 <= i < upto && (#[trigger] jobs[i]).completed_at is None && jobs[i].failed_at
                        is None && at == jobs[i].created_at
            },
            None => forall|i: int|
                0 <= i < upto ==> (#[trigger] jobs[i]).completed_at is Some || jobs[i].failed_at
                    is Some,
        },
    decreases upto,
{
    if upto > 0 {
        the_oldest_open_claim_is_found(jobs, upto - 1);
        let last = jobs[upto - 1];
        if let Some(at) = oldest_open(jobs, upto) {
            if at == last.created_at && last.is_open() {
                assert(jobs[upto - 1].created_at == at);
            } else {
                let i = choose|i: int|
                    0 <= i < upto - 1 && (#[trigger] jobs[i]).completed_at is None
                        && jobs[i].failed_at is None && at == jobs[i].created_at;
                assert(jobs[i].created_at == at);
            }
        }
    }
}

/// An age is the seconds that have passed, as far as they can be told; what was made later, or not at
/// all, has none.
pub proof fn ages_are_the_time_passed(created: i64, now: int)
    ensures
        age(None, now) == 0,
        now <= created ==> age(Some(created), now) == 0,
        created <= now <= created + i64::MAX ==> created + age(Some(created), now) == now,
        now > created + i64::MAX ==> age(Some(created), now) == i64::MAX,
{
}

/// A competition is left alone only once it is cancelled, completed or expired with its contract
/// closed; it is cancelled an hour after it failed, or at the start of the observations if nobody
/// signed it by then; and otherwise it is stepped. One whose contract holds the pot is never kept
/// stopped.
pub proof fn competitions_are_taken_up(competition: Competition, now: Timestamp)
    requires
        crate::clock::is_datetime(now as int),
        competition.failed_at matches Some(at) ==> crate::clock::is_datetime(at + HOUR),
    ensures
        ({
            let pot_held = competition.funding_confirmed_at is Some && competition.completed_at is None
                && competition.expiry_broadcasted_at is None;
            let over = competition.completed_at is Some || competition.expiry_broadcasted_at is Some;
            let cancelled = competition.cancelled_at is Some && !pot_held;
            let failed = competition.failed_at is Some && !pot_held;
            let expired = competition.signed_at is None && now
                >= competition.event_submission.start_observation_date;
            let opening = opens(competition, now);
            &&& opening is Finished == (over || cancelled)
            &&& !over && !cancelled && failed ==> (now - competition.failed_at->0 < 3_600_000_000_000
                ==> opening == Opening::WaitUntil(
                (competition.failed_at->0 + 3_600_000_000_000) as i128,
            )) && (now - competition.failed_at->0 >= 3_600_000_000_000 ==> opening is CancelFailed)
            &&& !over && !cancelled && !failed ==> (opening is CancelExpired) == expired && (
            opening is Step) == !expired
            &&& opening matches Opening::CancelFailed(saved) ==> saved.cancelled_at == Some(now)
            &&& opening matches Opening::CancelExpired(saved) ==> saved.cancelled_at == Some(now)
            &&& opening matches Opening::Step(taken) ==> taken.failed_at is None
                && taken.cancelled_at is None && taken == (Competition {
                failed_at: None,
                cancelled_at: None,
                ..competition
            })
        }),
{
}

/// Taking up a competition undoes only its stop, and that only while its contract holds the pot.
pub proof fn only_held_pots_are_taken_up_again(competition: Competition)
    ensures
        unstranded(competition) == (Competition {
            failed_at: unstranded(competition).failed_at,
            cancelled_at: unstranded(competition).cancelled_at,
            ..competition
        }),
        ({
            let pot_held = competition.funding_confirmed_at is Some && competition.completed_at is None
                && competition.expiry_broadcasted_at is None;
            &&& pot_held ==> unstranded(competition).failed_at is None && unstranded(
                competition,
            ).cancelled_at is None
            &&& !pot_held ==> unstranded(competition) == competition
            &&& competition.stranded() == (pot_held && (competition.failed_at is Some
                || competition.cancelled_at is Some))
        }),
{
}

/// A competition is checked again after the idle time, but while it awaits its attestation not before
/// the oracle can have attested or the contract expired.
pub proof fn competitions_are_checked_in_time(competition: Competition, now: int, idle: int)
    ensures
        due(competition, now, idle) >= now + idle,
        due(competition, now, idle) != now + idle ==> StatusKind::stored(
            competition,
        ) is AwaitingAttestation && due(competition, now, idle) == AwaitingAttestation::of(
            competition,
        ).ready(),
        StatusKind::stored(competition) is AwaitingAttestation ==> due(competition, now, idle)
            >= AwaitingAttestation::of(competition).ready(),
        AwaitingAttestation::of(competition).ready()
            <= competition.event_submission.end_observation_date,
        AwaitingAttestation::of(competition).ready()
            == competition.event_submission.end_observation_date || AwaitingAttestation::of(
            competition,
        ).contract_expiry() == Some(AwaitingAttestation::of(competition).ready()),
        AwaitingAttestation::of(competition).contract_expiry() matches Some(expiry)
            ==> AwaitingAttestation::of(competition).ready() <= expiry,
{
}

/// After a step a runner goes on at once exactly if the competition moved to a state that needs
/// nothing from outside; a failed one waits out its hour, a cancelled one is finished, and any other
/// waits until it is due.
pub proof fn runners_go_on_while_there_is_work(
    before: StatusKind,
    competition: Competition,
    now: int,
    idle: int,
)
    ensures
        ({
            let stored = StatusKind::stored(competition);
            let stopped = competition.failed_at is Some || competition.cancelled_at is Some;
            let needs_nothing = stored is EscrowConfirmed || stored is EventCreated
                || stored is EntriesSubmitted || stored is SigningComplete
                || stored is FundingConfirmed || stored is FundingSettled;
            let step = next_step(before, competition, now, idle);
            &&& (step == Step::Next(Wait::Now)) == (!stopped && stored != before && needs_nothing)
            &&& step is Finished == (competition.failed_at is None && competition.cancelled_at
                is Some)
            &&& competition.failed_at matches Some(at) ==> step == Step::Next(
                Wait::Until((at + 3_600_000_000_000) as i128),
            )
            &&& !stopped && !(stored != before && needs_nothing) ==> step == Step::Next(
                Wait::Until(due(competition, now, idle) as i128),
            )
        }),
{
}

} // verus!
