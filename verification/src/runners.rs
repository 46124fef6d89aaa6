//! Runners, each of which drives one competition, a step at a time, while its process holds the
//! competition's lease.
//!
//! Between steps a runner sleeps until an event wakes it or its state's next check is due. The
//! runner here decides what comes next; taking leases, running steps and sleeping is done by
//! whoever drives it.

use crate::clock::{is_datetime, Timestamp};
use crate::lease::Lease;
use vstd::arithmetic::power2::pow2;
use vstd::prelude::*;

verus! {

/// Five seconds, in nanoseconds: the backoff after the first failure.
pub const BASE_BACKOFF: u64 = 5_000_000_000;

/// How runners pace their work. Lengths of time are in nanoseconds.
#[derive(Debug)]
pub struct Pacing {
    /// The longest a waiting competition sleeps before it is checked again, unless its state says
    /// otherwise.
    pub idle: u64,
    /// How often the sweep starts missing runners and cleans up dead competitions.
    pub sweep: u64,
    /// How long a lease lasts without renewal. Runners renew at a third of this.
    pub lease_ttl: u64,
    /// How often a runner retries a lease that another coordinator holds.
    pub lease_retry: u64,
    /// The longest backoff after repeated failed steps.
    pub max_backoff: u64,
    /// How many steps run at once across all competitions.
    pub max_concurrent_steps: usize,
    /// How many immediate steps a runner takes before it yields.
    pub max_immediate_steps: usize,
    /// How often a coordinator picks up wakes that another coordinator recorded.
    pub wake_poll: u64,
}

impl Default for Pacing {
    fn default() -> (pacing: Self)
        ensures
            pacing == (Pacing {
                idle: 15_000_000_000,
                sweep: 60_000_000_000,
                lease_ttl: 30_000_000_000,
                lease_retry: 2_000_000_000,
                max_backoff: 300_000_000_000,
                max_concurrent_steps: 8,
                max_immediate_steps: 10,
                wake_poll: 1_000_000_000,
            }),
    {
        Pacing {
            idle: 15_000_000_000,
            sweep: 60_000_000_000,
            lease_ttl: 30_000_000_000,
            lease_retry: 2_000_000_000,
            max_backoff: 300_000_000_000,
            max_concurrent_steps: 8,
            max_immediate_steps: 10,
            wake_poll: 1_000_000_000,
        }
    }
}

/// Until when a runner waits.
#[derive(Clone, Copy, PartialEq, Eq, Structural, Debug)]
pub enum Wait {
    /// Run the next step now.
    Now,
    /// Sleep until woken, or until this time at the latest.
    Until(Timestamp),
}

/// What a runner does after a step.
#[derive(Clone, Copy, PartialEq, Eq, Structural, Debug)]
pub enum Step {
    /// The competition has more to do.
    Next(Wait),
    /// The competition has no lifecycle work left.
    Finished,
}

/// Why a step did not complete.
#[derive(Debug)]
pub enum StepError {
    /// Another coordinator holds the competition now; its state was not written.
    LeaseLost,
    Failed(String),
}

/// The backoff after so many failures in a row: it doubles with each, up to the sixteenth
/// doubling, and never exceeds the longest.
pub open spec fn backoff_after(failures: nat, max_backoff: nat) -> nat {
    let doublings: nat = if failures <= 1 {
        0
    } else if failures - 1 <= 16 {
        (failures - 1) as nat
    } else {
        16
    };
    let unbounded = BASE_BACKOFF as nat * pow2(doublings);
    if unbounded <= max_backoff {
        unbounded
    } else {
        max_backoff
    }
}

/// Two to the power `exponent`.
fn power_of_two(exponent: u32) -> (power: u64)
    requires
        exponent <= 16,
    ensures
        power == pow2(exponent as nat),
        power <= 65536,
{
    let mut power: u64 = 1;
    let mut i: u32 = 0;
    proof {
        vstd::arithmetic::power2::lemma2_to64();
    }
    while i < exponent
        invariant
            i <= exponent <= 16,
            power == pow2(i as nat),
            power <= 65536,
            pow2(16) == 65536,
        decreases exponent - i,
    {
        proof {
            vstd::arithmetic::power2::lemma_pow2_unfold((i + 1) as nat);
            if i + 1 < 16 {
                vstd::arithmetic::power2::lemma_pow2_strictly_increases((i + 1) as nat, 16);
            }
        }
        power = power * 2;
        i = i + 1;
    }
    power
}

impl Pacing {
    /// How long to wait after `failures` failures in a row.
    pub fn backoff(&self, failures: u32) -> (span: u64)
        ensures
            span == backoff_after(failures as nat, self.max_backoff as nat),
    {
        let earlier: u32 = failures.saturating_sub(1);
        let doublings: u32 = if earlier < 16 {
            earlier
        } else {
            16
        };
        let unbounded: u64 = BASE_BACKOFF * power_of_two(doublings);
        if unbounded <= self.max_backoff {
            unbounded
        } else {
            self.max_backoff
        }
    }
}

/// What a runner needs done next.
#[derive(Clone, Copy, PartialEq, Eq, Structural, Debug)]
pub enum RunnerAction {
    /// Take the competition's lease.
    Acquire,
    /// Sleep this long without the lease, unless woken.
    Sleep(u64),
    /// Run a step under the lease.
    Step,
    /// Sleep until this time under the lease, unless woken.
    SleepUntil(Timestamp),
    /// Stop, after releasing the lease if one is held.
    Stop,
}

/// What came of a runner's action.
#[derive(Debug)]
pub enum RunnerEvent {
    /// The lease was taken.
    Taken(Lease),
    /// Another coordinator holds the lease.
    HeldElsewhere,
    /// The lease could not be asked for.
    AcquireFailed,
    /// A sleep ended, by a wake or in due time.
    Awake,
    /// The coordinator is shutting down.
    Shutdown,
    /// The step completed.
    Stepped(Step),
    /// The step did not complete.
    StepFailed(StepError),
    /// Another coordinator took the lease during a sleep.
    LostWhileIdle,
}

/// Where a runner stands.
#[derive(Debug)]
pub struct Runner {
    /// The lease it holds.
    pub lease: Option<Lease>,
    /// Failures since the last step that completed.
    pub failures: u32,
    /// Immediate steps since it last slept.
    pub immediate: usize,
    /// The competition has no lifecycle work left.
    pub finished: bool,
}

impl Runner {
    /// Waking, a runner steps if it holds the lease, and otherwise takes it.
    pub open spec fn goes_on(self) -> RunnerAction {
        if self.lease is Some {
            RunnerAction::Step
        } else {
            RunnerAction::Acquire
        }
    }

    /// The runner `before` the event has become this one, which needs `action` next.
    pub open spec fn reacts(
        self,
        before: Runner,
        event: RunnerEvent,
        pacing: Pacing,
        now: Timestamp,
        action: RunnerAction,
    ) -> bool {
        match event {
            RunnerEvent::Taken(lease) => {
                &&& self == (Runner { lease: Some(lease), ..before })
                &&& action is Step
            },
            RunnerEvent::HeldElsewhere => {
                &&& self == (Runner { lease: None, ..before })
                &&& action == RunnerAction::Sleep(pacing.lease_retry)
            },
            RunnerEvent::AcquireFailed => {
                &&& self == (Runner { lease: None, failures: one_more(before.failures), ..before })
                &&& action == RunnerAction::Sleep(
                    backoff_after(self.failures as nat, pacing.max_backoff as nat) as u64,
                )
            },
            RunnerEvent::Awake => self == before && action == before.goes_on(),
            RunnerEvent::Shutdown => self == before && action is Stop,
            RunnerEvent::Stepped(Step::Finished) => {
                &&& self == (Runner { finished: true, ..before })
                &&& action is Stop
            },
            RunnerEvent::Stepped(Step::Next(Wait::Now)) => {
                if before.immediate < pacing.max_immediate_steps {
                    &&& self == (Runner {
                        failures: 0,
                        immediate: (before.immediate + 1) as usize,
                        ..before
                    })
                    &&& action == before.goes_on()
                } else {
                    &&& self == (Runner { failures: 0, immediate: 0, ..before })
                    &&& action == RunnerAction::SleepUntil((now + pacing.idle) as i128)
                }
            },
            RunnerEvent::Stepped(Step::Next(Wait::Until(deadline))) => {
                &&& self == (Runner { failures: 0, immediate: 0, ..before })
                &&& action == RunnerAction::SleepUntil(deadline)
            },
            RunnerEvent::StepFailed(StepError::LeaseLost) => {
                &&& self == (Runner { lease: None, immediate: 0, ..before })
                &&& action == RunnerAction::Sleep(pacing.lease_retry)
            },
            RunnerEvent::StepFailed(StepError::Failed(_)) => {
                &&& self == (Runner {
                    failures: one_more(before.failures),
                    immediate: 0,
                    ..before
                })
                &&& action == RunnerAction::SleepUntil(
                    (now + backoff_after(self.failures as nat, pacing.max_backoff as nat)) as i128,
                )
            },
            RunnerEvent::LostWhileIdle => {
                &&& self == (Runner { lease: None, ..before })
                &&& action is Acquire
            },
        }
    }

    /// A runner that starts.
    pub fn new() -> (runner: Self)
        ensures
            runner == (Runner { lease: None, failures: 0, immediate: 0, finished: false }),
            runner.goes_on() is Acquire,
    {
        Runner { lease: None, failures: 0, immediate: 0, finished: false }
    }

    /// What to do next, given what came of the last action.
    pub fn react(&mut self, event: RunnerEvent, pacing: &Pacing, now: Timestamp) -> (action:
        RunnerAction)
        requires
            is_datetime(now as int),
        ensures
            final(self).reacts(*old(self), event, *pacing, now, action),
    {
        match event {
            RunnerEvent::Taken(lease) => {
                self.lease = Some(lease);
                RunnerAction::Step
            },
            RunnerEvent::HeldElsewhere => {
                self.lease = None;
                RunnerAction::Sleep(pacing.lease_retry)
            },
            RunnerEvent::AcquireFailed => {
                self.lease = None;
                self.failures = self.failures.saturating_add(1);
                RunnerAction::Sleep(pacing.backoff(self.failures))
            },
            RunnerEvent::Awake => self.go_on(),
            RunnerEvent::Shutdown => RunnerAction::Stop,
            RunnerEvent::Stepped(Step::Finished) => {
                self.finished = true;
                RunnerAction::Stop
            },
            RunnerEvent::Stepped(Step::Next(Wait::Now)) => {
                self.failures = 0;
                if self.immediate < pacing.max_immediate_steps {
                    self.immediate = self.immediate + 1;
                    self.go_on()
                } else {
                    // A state that keeps asking to run at once yields for an idle period.
                    self.immediate = 0;
                    RunnerAction::SleepUntil(now + pacing.idle as i128)
                }
            },
            RunnerEvent::Stepped(Step::Next(Wait::Until(deadline))) => {
                self.failures = 0;
                self.immediate = 0;
                RunnerAction::SleepUntil(deadline)
            },
            RunnerEvent::StepFailed(StepError::LeaseLost) => {
                self.lease = None;
                self.immediate = 0;
                RunnerAction::Sleep(pacing.lease_retry)
            },
            RunnerEvent::StepFailed(StepError::Failed(_)) => {
                self.failures = self.failures.saturating_add(1);
                self.immediate = 0;
                RunnerAction::SleepUntil(now + pacing.backoff(self.failures) as i128)
            },
            RunnerEvent::LostWhileIdle => {
                self.lease = None;
                RunnerAction::Acquire
            },
        }
    }

    /// What a runner that is awake does.
    fn go_on(&self) -> (action: RunnerAction)
        ensures
            action == self.goes_on(),
    {
        if self.lease.is_some() {
            RunnerAction::Step
        } else {
            RunnerAction::Acquire
        }
    }
}

/// Whether a competition's runner is to be started: not while the process shuts down, nor while one
/// is running. `finished` is whether the one that was started last has ended.
pub fn should_start(shutting_down: bool, finished: Option<bool>) -> (start: bool)
    ensures
        start == (!shutting_down && finished != Some(false)),
{
    if shutting_down {
        return false;
    }
    match finished {
        Some(finished) => finished,
        None => true,
    }
}

/// One more failure, as far as they are counted.
pub open spec fn one_more(failures: u32) -> u32 {
    if failures < u32::MAX {
        (failures + 1) as u32
    } else {
        failures
    }
}

/// How long a runner sleeps to reach `deadline`: not at all once it has passed.
pub fn sleep_length(deadline: Timestamp, now: Timestamp) -> (span: u128)
    requires
        is_datetime(deadline as int),
        is_datetime(now as int),
    ensures
        span == (if deadline > now {
            deadline - now
        } else {
            0
        }),
{
    if deadline > now {
        (deadline - now) as u128
    } else {
        0
    }
}

/// A wait after failures is never longer than the longest backoff.
pub proof fn backoff_is_bounded(failures: nat, max_backoff: nat)
    ensures
        backoff_after(failures, max_backoff) <= max_backoff,
{
}

/// A further failure never shortens the wait.
pub proof fn backoff_never_shrinks(fewer: nat, more: nat, max_backoff: nat)
    requires
        fewer <= more,
    ensures
        backoff_after(fewer, max_backoff) <= backoff_after(more, max_backoff),
{
    let a: nat = if fewer <= 1 {
        0
    } else if fewer - 1 <= 16 {
        (fewer - 1) as nat
    } else {
        16
    };
    let b: nat = if more <= 1 {
        0
    } else if more - 1 <= 16 {
        (more - 1) as nat
    } else {
        16
    };
    if a < b {
        vstd::arithmetic::power2::lemma_pow2_strictly_increases(a, b);
    }
    assert(BASE_BACKOFF as nat * pow2(a) <= BASE_BACKOFF as nat * pow2(b)) by (nonlinear_arith)
        requires
            pow2(a) <= pow2(b),
    ;
}

/// A runner steps only under its lease, and sleeps between steps only under it. It never counts
/// more immediate steps than it may take before it yields.
pub proof fn a_runner_steps_only_under_its_lease(
    before: Runner,
    after: Runner,
    event: RunnerEvent,
    pacing: Pacing,
    now: Timestamp,
    action: RunnerAction,
)
    requires
        after.reacts(before, event, pacing, now, action),
        before.immediate <= pacing.max_immediate_steps,
        // Steps, and sleeps that can lose the lease, are run under it.
        event is Stepped || event is StepFailed || event is LostWhileIdle ==> before.lease is Some,
    ensures
        action is Step || action is SleepUntil ==> after.lease is Some,
        action is Acquire || action is Sleep ==> after.lease is None,
        after.immediate <= pacing.max_immediate_steps,
        after.finished ==> before.finished || event == RunnerEvent::Stepped(Step::Finished),
{
}

} // verus!
