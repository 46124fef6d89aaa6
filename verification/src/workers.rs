//! Leases on background workers that must run in one coordinator process at a time, such as the
//! ones that pay winners.
//!
//! Each worker keeps its lease between ticks, so its work stays in one process until that process
//! stops. Asking the store for leases and doing the work is left to whoever drives the workers.

use crate::lease::{granted, released, Lease, LeaseLost, LeaseRowView, LeaseView};
use dashmap::DashMap;
use vstd::prelude::*;

verus! {

/// A map that can be shared between threads.
#[verifier::external_type_specification]
#[verifier::external_body]
#[verifier::reject_recursive_types(K)]
#[verifier::reject_recursive_types(V)]
#[verifier::reject_recursive_types(S)]
pub struct ExDashMap<K, V, S>(dashmap::DashMap<K, V, S>);

/// The tokens that a map holds, by the text of the resource that each fences.
pub uninterp spec fn tokens(held: DashMap<String, i64>) -> Map<Seq<char>, i64>;

/// A map without tokens, from `DashMap::new`.
#[verifier::external_body]
fn no_tokens() -> (held: DashMap<String, i64>)
    ensures
        holds_nothing(tokens(held)),
{
    DashMap::new()
}

/// Hold a token, in place of any that was held on the resource, from `DashMap::insert`. The token
/// that it replaces is returned.
#[verifier::external_body]
fn insert_token(held: &mut DashMap<String, i64>, resource: String, token: i64) -> (replaced: Option<
    i64,
>)
    ensures
        tokens(*final(held)) == tokens(*old(held)).insert(resource@, token),
        replaced == held_token(tokens(*old(held)), resource@),
{
    held.insert(resource, token)
}

/// Hold no token on the resource any more, from `DashMap::remove`. The token that was held is
/// returned.
#[verifier::external_body]
fn remove_token(held: &mut DashMap<String, i64>, resource: &String) -> (removed: Option<i64>)
    ensures
        tokens(*final(held)) == tokens(*old(held)).remove(resource@),
        removed == held_token(tokens(*old(held)), resource@),
{
    held.remove(resource).map(|(_, token)| token)
}

/// Every token that is held with its resource, in no particular order, from `DashMap::iter`: each
/// resource once.
#[verifier::external_body]
fn list_tokens(held: &DashMap<String, i64>) -> (listed: Vec<(String, i64)>)
    ensures
        lists_tokens(listed@, tokens(*held)),
{
    held.iter().map(|entry| (entry.key().clone(), *entry.value())).collect()
}

/// Hold no tokens any more, from `DashMap::clear`.
#[verifier::external_body]
fn clear_tokens(held: &mut DashMap<String, i64>)
    ensures
        holds_nothing(tokens(*final(held))),
{
    held.clear()
}

/// No token is held.
pub open spec fn holds_nothing(tokens: Map<Seq<char>, i64>) -> bool {
    tokens == Map::<Seq<char>, i64>::empty()
}

/// The token that is held on a resource, if one is.
pub open spec fn held_token(tokens: Map<Seq<char>, i64>, resource: Seq<char>) -> Option<i64> {
    if tokens.contains_key(resource) {
        Some(tokens[resource])
    } else {
        None
    }
}

/// The list holds what the map holds, each resource once.
pub open spec fn lists_tokens(listed: Seq<(String, i64)>, tokens: Map<Seq<char>, i64>) -> bool {
    &&& forall|i: int|
        0 <= i < listed.len() ==> tokens.contains_pair((#[trigger] listed[i]).0@, listed[i].1)
    &&& forall|resource: Seq<char>| #[trigger]
        tokens.contains_key(resource) ==> exists|i: int|
            0 <= i < listed.len() && (#[trigger] listed[i]).0@ == resource
    &&& forall|i: int, j: int|
        0 <= i < j < listed.len() ==> (#[trigger] listed[i]).0@ != (#[trigger] listed[j]).0@
}

/// The view of a lease, where there is one.
pub open spec fn lease_view(lease: Option<Lease>) -> Option<LeaseView> {
    match lease {
        Some(lease) => Some(lease@),
        None => None,
    }
}

/// The lease that a tick of a worker works under, once it was asked for: none where another process
/// holds it, or where it could not be asked for.
pub open spec fn tick_lease(holder: Seq<char>, worker: Seq<char>, granted: Option<Option<i64>>) -> Option<
    LeaseView,
> {
    match granted {
        Some(Some(token)) => Some(
            LeaseView { resource: "worker:"@ + worker, holder, token: token as int },
        ),
        _ => None,
    }
}

/// The tokens that are held once a tick's lease was asked for: the one that was granted, or none on
/// a worker that another process runs.
pub open spec fn held_after_tick(
    held: Map<Seq<char>, i64>,
    worker: Seq<char>,
    granted: Option<Option<i64>>,
) -> Map<Seq<char>, i64> {
    match granted {
        Some(Some(token)) => held.insert("worker:"@ + worker, token),
        Some(None) => held.remove("worker:"@ + worker),
        None => held,
    }
}

/// The lease that is given up when a worker stops, if one is held.
pub open spec fn lease_to_release(
    holder: Seq<char>,
    held: Map<Seq<char>, i64>,
    worker: Seq<char>,
) -> Option<LeaseView> {
    match held_token(held, "worker:"@ + worker) {
        Some(token) => Some(
            LeaseView { resource: "worker:"@ + worker, holder, token: token as int },
        ),
        None => None,
    }
}

/// What a process that asks for a worker's lease is answered: the token that it was granted, if any.
pub open spec fn answer(
    row: Option<LeaseRowView>,
    worker: Seq<char>,
    holder: Seq<char>,
    expires_at: int,
    now: int,
) -> Option<Option<i64>> {
    match granted(row, "worker:"@ + worker, holder, expires_at, now) {
        Some(stored) => Some(Some(stored.token as i64)),
        None => Some(None),
    }
}

/// The leases that one process holds on background workers.
#[derive(Debug)]
pub struct WorkerLeases {
    /// The process, as a lease holder.
    pub holder: String,
    /// How long a lease lasts without renewal, in nanoseconds.
    pub ttl: u64,
    /// The token of each lease that is held, by its resource.
    pub held: DashMap<String, i64>,
}

impl WorkerLeases {
    /// The token of each lease that is held, by the resource that is leased.
    pub open spec fn held(self) -> Map<Seq<char>, i64> {
        tokens(self.held)
    }

    /// The lease on a resource with the given token.
    pub open spec fn lease(self, resource: Seq<char>, token: i64) -> LeaseView {
        LeaseView { resource, holder: self.holder@, token: token as int }
    }

    /// The leases of a process that holds none yet.
    pub fn new(holder: String, ttl: u64) -> (leases: Self)
        ensures
            leases.holder == holder,
            leases.ttl == ttl,
            holds_nothing(leases.held()),
    {
        WorkerLeases { holder, ttl, held: no_tokens() }
    }

    /// Begin a tick of `worker` once its lease was asked for. The lease to work under comes back if
    /// this process holds it, with the token that was granted. If another coordinator runs the
    /// worker, any lease on it is forgotten; if the lease could not be asked for, nothing is.
    pub fn tick(&mut self, worker: &str, granted: Option<Option<i64>>) -> (lease: Option<Lease>)
        ensures
            final(self).holder == old(self).holder,
            final(self).ttl == old(self).ttl,
            lease_view(lease) == tick_lease(old(self).holder@, worker@, granted),
            final(self).held() == held_after_tick(old(self).held(), worker@, granted),
    {
        let resource = Lease::worker_resource(worker);
        match granted {
            Some(Some(token)) => {
                insert_token(&mut self.held, resource.clone(), token);
                Some(Lease { resource, holder: self.holder.clone(), token })
            },
            Some(None) => {
                remove_token(&mut self.held, &resource);
                None
            },
            None => None,
        }
    }

    /// End a tick of `worker` with what the work under its lease gave. If another coordinator took
    /// over meanwhile, the lease is forgotten and nothing is given.
    pub fn tick_ended<T>(&mut self, worker: &str, output: Result<T, LeaseLost>) -> (given: Option<
        T,
    >)
        ensures
            final(self).holder == old(self).holder,
            final(self).ttl == old(self).ttl,
            match output {
                Ok(output) => given == Some(output) && final(self).held() == old(self).held(),
                Err(_) => given is None && final(self).held() == old(self).held().remove(
                    "worker:"@ + worker@,
                ),
            },
    {
        match output {
            Ok(output) => Some(output),
            Err(_) => {
                let resource = Lease::worker_resource(worker);
                remove_token(&mut self.held, &resource);
                None
            },
        }
    }

    /// Hand `worker` over at once, when it stops: the lease to release, if it is held.
    pub fn release(&mut self, worker: &str) -> (lease: Option<Lease>)
        ensures
            final(self).holder == old(self).holder,
            final(self).ttl == old(self).ttl,
            final(self).held() == old(self).held().remove("worker:"@ + worker@),
            lease_view(lease) == lease_to_release(old(self).holder@, old(self).held(), worker@),
    {
        let resource = Lease::worker_resource(worker);
        match remove_token(&mut self.held, &resource) {
            Some(token) => Some(Lease { resource, holder: self.holder.clone(), token }),
            None => None,
        }
    }

    /// Hand every held worker over at once, on shutdown: the leases to release, each once.
    pub fn release_all(&mut self) -> (leases: Vec<Lease>)
        ensures
            final(self).holder == old(self).holder,
            final(self).ttl == old(self).ttl,
            holds_nothing(final(self).held()),
            old(self).hands_over(leases@),
    {
        let listed = list_tokens(&self.held);
        let mut leases: Vec<Lease> = Vec::new();
        let mut i: usize = 0;
        while i < listed.len()
            invariant
                i <= listed@.len(),
                leases@.len() == i,
                forall|j: int|
                    0 <= j < i ==> (#[trigger] leases@[j])@ == self.lease(
                        listed@[j].0@,
                        listed@[j].1,
                    ),
            decreases listed@.len() - i,
        {
            leases.push(
                Lease {
                    resource: listed[i].0.clone(),
                    holder: self.holder.clone(),
                    token: listed[i].1,
                },
            );
            i = i + 1;
        }
        proof {
            assert forall|resource: Seq<char>| #[trigger]
                self.held().contains_key(resource) implies exists|j: int|
                0 <= j < leases@.len() && (#[trigger] leases@[j]).resource@ == resource by {
                let j = choose|j: int|
                    0 <= j < listed@.len() && (#[trigger] listed@[j]).0@ == resource;
                assert(leases@[j].resource@ == resource);
            }
        }
        clear_tokens(&mut self.held);
        leases
    }

    /// The leases are those that are held, each once.
    pub open spec fn hands_over(self, leases: Seq<Lease>) -> bool {
        &&& forall|i: int|
            0 <= i < leases.len() ==> {
                let lease = #[trigger] leases[i];
                &&& self.held().contains_pair(lease.resource@, lease.token)
                &&& lease@ == self.lease(lease.resource@, lease.token)
            }
        &&& forall|resource: Seq<char>| #[trigger]
            self.held().contains_key(resource) ==> exists|i: int|
                0 <= i < leases.len() && (#[trigger] leases[i]).resource@ == resource
        &&& forall|i: int, j: int|
            0 <= i < j < leases.len() ==> (#[trigger] leases[i]).resource@ != (
            #[trigger] leases[j]).resource@
    }
}

/// What two workers are leased by differs where the workers do, so a tick of one leaves the lease
/// of the other as it was.
pub proof fn workers_are_leased_apart(
    before: Map<Seq<char>, i64>,
    worker: Seq<char>,
    other: Seq<char>,
    token: i64,
)
    requires
        worker != other,
    ensures
        held_token(before.insert("worker:"@ + worker, token), "worker:"@ + other) == held_token(
            before,
            "worker:"@ + other,
        ),
        held_token(before.remove("worker:"@ + worker), "worker:"@ + other) == held_token(
            before,
            "worker:"@ + other,
        ),
{
    let prefix = "worker:"@;
    if prefix + worker == prefix + other {
        assert((prefix + worker).skip(prefix.len() as int) =~= worker);
        assert((prefix + other).skip(prefix.len() as int) =~= other);
    }
}

/// A worker runs in one process until that process stops. Once `blue`, which held `held`, was
/// granted the worker's lease at `started`, `blue` runs it; until the lease expires `green` does not,
/// while `blue` asks again and runs on. Once `blue` gives the lease up, `green` runs the worker, and
/// from then on `blue` does not while `green`'s lease lasts.
pub proof fn a_worker_runs_in_one_process_until_it_stops(
    row: Option<LeaseRowView>,
    held: Map<Seq<char>, i64>,
    worker: Seq<char>,
    blue: Seq<char>,
    green: Seq<char>,
    started: int,
    expires_at: int,
    meanwhile: int,
    asked_until: int,
    stopped: int,
    passed_until: int,
    later: int,
)
    requires
        blue != green,
        row matches Some(stored) ==> stored.resource == "worker:"@ + worker && i64::MIN
            <= stored.token < i64::MAX,
        granted(row, "worker:"@ + worker, blue, expires_at, started) is Some,
        meanwhile < expires_at,
        0 <= stopped,
        later < passed_until,
    ensures
        ({
            let first = answer(row, worker, blue, expires_at, started);
            let taken = granted(row, "worker:"@ + worker, blue, expires_at, started);
            let given_up = lease_to_release(blue, held_after_tick(held, worker, first), worker);
            let free = released(taken, given_up->0);
            let passed = granted(free, "worker:"@ + worker, green, passed_until, stopped);
            &&& tick_lease(blue, worker, first) is Some
            &&& tick_lease(green, worker, answer(taken, worker, green, asked_until, meanwhile))
                is None
            &&& tick_lease(blue, worker, answer(taken, worker, blue, asked_until, meanwhile))
                == tick_lease(blue, worker, first)
            &&& given_up == tick_lease(blue, worker, first)
            &&& tick_lease(green, worker, answer(free, worker, green, passed_until, stopped))
                is Some
            &&& tick_lease(blue, worker, answer(passed, worker, blue, asked_until, later)) is None
        }),
{
}

/// Holding one worker's lease keeps no other worker from running elsewhere: each is leased by a
/// resource of its own, and one that nobody ever ran runs wherever it is asked for.
pub proof fn workers_run_apart(
    worker: Seq<char>,
    other: Seq<char>,
    holder: Seq<char>,
    expires_at: int,
    now: int,
)
    requires
        worker != other,
    ensures
        "worker:"@ + worker != "worker:"@ + other,
        tick_lease(holder, other, answer(None, other, holder, expires_at, now)) == Some(
            LeaseView { resource: "worker:"@ + other, holder, token: 1 },
        ),
{
    workers_are_leased_apart(Map::empty(), worker, other, 0);
    let held: Map<Seq<char>, i64> = Map::empty();
    assert(held_token(held.insert("worker:"@ + worker, 0), "worker:"@ + other) is None);
}

} // verus!
