//! Leases on work that only one coordinator process may do at a time, and the wakes that
//! coordinators share.
//!
//! A lease expires unless its holder renews it, so a crashed process's work moves to another.
//! Taking a lease from another holder raises its token, and state writes are fenced on the token,
//! so a process that lost a lease while working cannot overwrite the new holder's state.

use crate::clock::{is_datetime, now_utc, Timestamp};
use crate::competition::Uuid;
use crate::ids::{uuid_chars, uuid_to_string};
use vstd::prelude::*;
use vstd::string::StringExecFns;

verus! {

/// A held lease. `token` fences writes made under it.
#[derive(Debug)]
pub struct Lease {
    pub resource: String,
    pub holder: String,
    pub token: i64,
}

/// Another coordinator took the lease while this one worked.
#[derive(Clone, Copy, PartialEq, Eq, Structural, Debug)]
pub struct LeaseLost;

/// The stored lease of one resource. It is held until `expires_at`, in UNIX milliseconds.
#[derive(Debug)]
pub struct LeaseRow {
    pub resource: String,
    pub holder: String,
    pub token: i64,
    pub expires_at: i64,
}

/// A lease, with its texts as sequences of characters.
pub struct LeaseView {
    pub resource: Seq<char>,
    pub holder: Seq<char>,
    pub token: int,
}

/// A stored lease, with its texts as sequences of characters.
pub struct LeaseRowView {
    pub resource: Seq<char>,
    pub holder: Seq<char>,
    pub token: int,
    pub expires_at: int,
}

impl View for Lease {
    type V = LeaseView;

    open spec fn view(&self) -> LeaseView {
        LeaseView { resource: self.resource@, holder: self.holder@, token: self.token as int }
    }
}

impl View for LeaseRow {
    type V = LeaseRowView;

    open spec fn view(&self) -> LeaseRowView {
        LeaseRowView {
            resource: self.resource@,
            holder: self.holder@,
            token: self.token as int,
            expires_at: self.expires_at as int,
        }
    }
}

/// The view of a stored lease, where there is one.
pub open spec fn row_view(row: Option<LeaseRow>) -> Option<LeaseRowView> {
    match row {
        Some(row) => Some(row@),
        None => None,
    }
}

/// The stored lease after `holder` asks for `resource` at the time `now`, if it is granted. A
/// resource that nobody ever held is granted; the holder's own lease is extended and keeps its
/// token; an expired or released lease passes on with a higher token.
pub open spec fn granted(
    row: Option<LeaseRowView>,
    resource: Seq<char>,
    holder: Seq<char>,
    expires_at: int,
    now: int,
) -> Option<LeaseRowView> {
    match row {
        None => Some(LeaseRowView { resource, holder, token: 1, expires_at }),
        Some(row) => if row.holder == holder {
            Some(LeaseRowView { expires_at, ..row })
        } else if row.expires_at <= now {
            Some(LeaseRowView { holder, token: row.token + 1, expires_at, ..row })
        } else {
            None
        },
    }
}

/// The lease is the one stored.
pub open spec fn holds(row: Option<LeaseRowView>, lease: LeaseView) -> bool {
    match row {
        Some(row) => row.resource == lease.resource && row.holder == lease.holder && row.token
            == lease.token,
        None => false,
    }
}

/// The stored lease after `lease` is given up.
pub open spec fn released(row: Option<LeaseRowView>, lease: LeaseView) -> Option<LeaseRowView> {
    if holds(row, lease) {
        Some(LeaseRowView { expires_at: 0, ..row->0 })
    } else {
        row
    }
}

/// The stored lease after `lease` is extended.
pub open spec fn renewed(
    row: Option<LeaseRowView>,
    lease: LeaseView,
    expires_at: int,
) -> Option<LeaseRowView> {
    if holds(row, lease) {
        Some(LeaseRowView { expires_at, ..row->0 })
    } else {
        row
    }
}

/// The UNIX timestamp of `at` in milliseconds, rounded toward the epoch.
pub open spec fn millis(at: int) -> int {
    if at >= 0 {
        at / 1_000_000
    } else {
        -((-at) / 1_000_000)
    }
}

/// The UNIX timestamp of `at` in milliseconds, so that a short lease is not cut short by rounding.
pub fn unix_millis(at: Timestamp) -> (at_ms: i64)
    requires
        is_datetime(at as int),
    ensures
        at_ms == millis(at as int),
{
    if at >= 0 {
        (at / 1_000_000) as i64
    } else {
        (-((-at) / 1_000_000)) as i64
    }
}

/// When a lease taken at the time `now` for `ttl` nanoseconds expires, in UNIX milliseconds.
pub fn expiry_at(now: Timestamp, ttl: u64) -> (expires_at: i64)
    requires
        is_datetime(now as int),
    ensures
        expires_at == millis(now as int) + ttl as int / 1_000_000,
{
    let held_ms: i64 = (ttl / 1_000_000) as i64;
    unix_millis(now) + held_ms
}

/// When a lease taken now for `ttl` nanoseconds expires, in UNIX milliseconds.
pub fn expiry(ttl: u64) -> (expires_at: i64)
    ensures
        exists|now: Timestamp|
            #![trigger is_datetime(now as int)]
            is_datetime(now as int) && expires_at == millis(now as int) + ttl as int / 1_000_000,
{
    let now: Timestamp = now_utc();
    expiry_at(now, ttl)
}

impl Lease {
    /// The name of the lease on driving one competition.
    pub fn competition_resource(competition_id: Uuid) -> (resource: String)
        ensures
            resource@ == "competition:"@ + uuid_chars(competition_id),
    {
        let mut resource = "competition:".to_owned();
        resource.append(uuid_to_string(competition_id).as_str());
        resource
    }

    /// The name of the lease on a background worker.
    pub fn worker_resource(worker: &str) -> (resource: String)
        ensures
            resource@ == "worker:"@ + worker@,
    {
        let mut resource = "worker:".to_owned();
        resource.append(worker);
        resource
    }
}

/// Take `resource` for `holder` until `expires_at`, if nobody else holds it at the time `now`.
/// `row` is what is stored of the resource, and what is to be stored comes back with the lease.
pub fn acquire_lease(
    row: Option<LeaseRow>,
    resource: String,
    holder: String,
    expires_at: i64,
    now: i64,
) -> (taken: (Option<LeaseRow>, Option<Lease>))
    requires
        row matches Some(stored) ==> {
            &&& stored.resource@ == resource@
            &&& stored.holder@ != holder@ && stored.expires_at <= now ==> stored.token < i64::MAX
        },
    ensures
        match granted(row_view(row), resource@, holder@, expires_at as int, now as int) {
            Some(stored) => {
                &&& row_view(taken.0) == Some(stored)
                &&& taken.1 matches Some(lease)
                &&& lease@ == (LeaseView { resource: resource@, holder: holder@, token: stored.token })
            },
            None => taken.0 == row && taken.1 is None,
        },
{
    match row {
        None => {
            let lease = Lease { resource: resource.clone(), holder: holder.clone(), token: 1 };
            (Some(LeaseRow { resource, holder, token: 1, expires_at }), Some(lease))
        },
        Some(stored) => {
            if stored.holder == holder {
                let lease = Lease { resource, holder, token: stored.token };
                (Some(LeaseRow { expires_at, ..stored }), Some(lease))
            } else if stored.expires_at <= now {
                let token: i64 = stored.token + 1;
                let lease = Lease { resource, holder: holder.clone(), token };
                (Some(LeaseRow { resource: stored.resource, holder, token, expires_at }), Some(lease))
            } else {
                (Some(stored), None)
            }
        },
    }
}

/// The lease is the one stored.
pub fn is_held(row: &Option<LeaseRow>, lease: &Lease) -> (held: bool)
    ensures
        held == holds(row_view(*row), lease@),
{
    match row {
        Some(stored) => stored.resource == lease.resource && stored.holder == lease.holder
            && stored.token == lease.token,
        None => false,
    }
}

/// Extend a held lease until `expires_at`. False if another holder has taken it.
pub fn renew_lease(row: &mut Option<LeaseRow>, lease: &Lease, expires_at: i64) -> (kept: bool)
    ensures
        kept == holds(row_view(*old(row)), lease@),
        row_view(*final(row)) == renewed(row_view(*old(row)), lease@, expires_at as int),
{
    if is_held(row, lease) {
        if let Some(stored) = row.take() {
            *row = Some(LeaseRow { expires_at, ..stored });
        }
        true
    } else {
        false
    }
}

/// Give up a held lease, so that another process can take it at once.
pub fn release_lease(row: &mut Option<LeaseRow>, lease: &Lease)
    ensures
        row_view(*final(row)) == released(row_view(*old(row)), lease@),
{
    if is_held(row, lease) {
        if let Some(stored) = row.take() {
            *row = Some(LeaseRow { expires_at: 0, ..stored });
        }
    }
}

/// Who holds the resource at the time `now`, if anyone.
pub fn lease_holder(row: &Option<LeaseRow>, now: i64) -> (held: Option<Lease>)
    ensures
        match *row {
            Some(stored) => if stored.expires_at > now {
                held matches Some(lease) && lease@ == (LeaseView {
                    resource: stored.resource@,
                    holder: stored.holder@,
                    token: stored.token as int,
                })
            } else {
                held is None
            },
            None => held is None,
        },
{
    match row {
        Some(stored) => if stored.expires_at > now {
            Some(
                Lease {
                    resource: stored.resource.clone(),
                    holder: stored.holder.clone(),
                    token: stored.token,
                },
            )
        } else {
            None
        },
        None => None,
    }
}

/// While another process holds a resource, nobody takes it from them.
pub proof fn a_held_lease_is_exclusive(
    row: LeaseRowView,
    holder: Seq<char>,
    expires_at: int,
    now: int,
)
    requires
        row.holder != holder,
        row.expires_at > now,
    ensures
        granted(Some(row), row.resource, holder, expires_at, now) is None,
{
}

/// Asking again keeps the holder's token and extends the lease, whenever it is asked.
pub proof fn a_holder_keeps_its_token(row: LeaseRowView, expires_at: int, now: int)
    ensures
        granted(Some(row), row.resource, row.holder, expires_at, now) == Some(
            LeaseRowView { expires_at, ..row },
        ),
{
}

/// A released lease can be taken at once, and passes to another holder with a higher token. The one
/// who gave it up can neither renew nor release it any more.
pub proof fn a_released_lease_passes_on(
    row: LeaseRowView,
    lease: LeaseView,
    holder: Seq<char>,
    expires_at: int,
    now: int,
)
    requires
        holds(Some(row), lease),
        holder != lease.holder,
        now >= 0,
    ensures
        ({
            let taken = granted(
                released(Some(row), lease),
                row.resource,
                holder,
                expires_at,
                now,
            );
            &&& taken is Some
            &&& taken->0.holder == holder
            &&& taken->0.token > lease.token
            &&& !holds(taken, lease)
            &&& forall|until: int| #[trigger] renewed(taken, lease, until) == taken
            &&& released(taken, lease) == taken
        }),
{
}

/// Whatever a process does with a stored lease, its token never falls.
pub open spec fn follows_row(before: LeaseRowView, after: LeaseRowView) -> bool {
    ||| exists|holder: Seq<char>, expires_at: int, now: int|
        #[trigger] granted(Some(before), before.resource, holder, expires_at, now) == Some(after)
    ||| exists|lease: LeaseView, expires_at: int|
        #[trigger] renewed(Some(before), lease, expires_at) == Some(after)
    ||| exists|lease: LeaseView| #[trigger] released(Some(before), lease) == Some(after)
}

/// A lease that another holder took stays lost: however the stored lease changes, the old token
/// neither renews nor fences a write any more.
pub proof fn a_lost_lease_stays_lost(history: Seq<LeaseRowView>, lease: LeaseView)
    requires
        history.len() > 0,
        history[0].token > lease.token,
        forall|i: int|
            0 <= i < history.len() - 1 ==> follows_row(#[trigger] history[i], history[i + 1]),
    ensures
        forall|i: int| 0 <= i < history.len() ==> !holds(Some(#[trigger] history[i]), lease),
    decreases history.len(),
{
    assert forall|i: int| 0 <= i < history.len() implies #[trigger] history[i].token
        > lease.token by {
        token_never_falls(history, i);
    }
}

/// See `a_lost_lease_stays_lost`.
proof fn token_never_falls(history: Seq<LeaseRowView>, i: int)
    requires
        0 <= i < history.len(),
        forall|j: int|
            0 <= j < history.len() - 1 ==> follows_row(#[trigger] history[j], history[j + 1]),
    ensures
        history[i].token >= history[0].token,
    decreases i,
{
    if i > 0 {
        token_never_falls(history, i - 1);
        assert(follows_row(history[i - 1], history[i - 1 + 1]));
    }
}

/// How often a lease that lasts `ttl` nanoseconds is renewed while work runs under it: every third
/// of it, but no more than ten times a second.
pub fn renewal_interval(ttl: u64) -> (interval: u64)
    ensures
        interval == (if ttl / 3 > 100_000_000 {
            ttl / 3
        } else {
            100_000_000
        }),
        ttl >= 300_000_000 ==> interval * 3 <= ttl,
{
    let third: u64 = ttl / 3;
    if third > 100_000_000 {
        third
    } else {
        100_000_000
    }
}

/// Whether work under a lease lost it, after a renewal that was kept, was refused, or could not be
/// asked for. A lost lease stays lost; a store that cannot be reached leaves it to a fenced write.
pub fn lost_after_renewal(lost: bool, kept: Option<bool>) -> (now_lost: bool)
    ensures
        now_lost == (lost || kept == Some(false)),
{
    match kept {
        Some(kept) => lost || !kept,
        None => lost,
    }
}

/// Work done under a lease counts only if the lease was kept throughout.
pub fn leased_result<T>(output: T, lost: bool) -> (result: Result<T, LeaseLost>)
    ensures
        result == if lost {
            Err::<T, LeaseLost>(LeaseLost)
        } else {
            Ok::<T, LeaseLost>(output)
        },
{
    if lost {
        Err(LeaseLost)
    } else {
        Ok(output)
    }
}

} // verus!
