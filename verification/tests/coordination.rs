use competitions::clock::SECOND;
use competitions::lease::{
    acquire_lease, expiry, expiry_at, is_held, lease_holder, leased_result, lost_after_renewal,
    release_lease, renew_lease, renewal_interval, unix_millis, Lease, LeaseLost, LeaseRow,
};
use competitions::reported::Reported;
use competitions::runners::{
    should_start, sleep_length, Pacing, Runner, RunnerAction, RunnerEvent, Step, StepError, Wait,
};
use competitions::wakes::WakeLog;
use competitions::workers::WorkerLeases;

const NOW: i128 = 1_800_000_000 * SECOND;
const NOW_MS: i64 = 1_800_000_000_000;
const COMPETITION: u128 = 0x018f_0000_0000_7000_8000_0000_0000_002a;

/// Take the lease of the competition at `NOW_MS + after` for 30 seconds.
fn take(row: &mut Option<LeaseRow>, holder: &str, after: i64) -> Option<Lease> {
    let now = NOW_MS + after;
    let (stored, lease) = acquire_lease(
        row.take(),
        Lease::competition_resource(COMPETITION),
        holder.to_string(),
        now + 30_000,
        now,
    );
    *row = stored;
    lease
}

#[test]
fn two_coordinators_share_competitions_and_hand_over_on_shutdown() {
    let mut row = None;
    let blue = take(&mut row, "blue", 0).unwrap();
    assert_eq!(blue.resource, "competition:018f0000-0000-7000-8000-00000000002a");
    assert_eq!((blue.holder.as_str(), blue.token), ("blue", 1));
    // Whichever process took a competition keeps it while it runs.
    assert!(take(&mut row, "green", 0).is_none());
    assert_eq!(take(&mut row, "blue", 1_000).unwrap().token, 1);
    assert!(renew_lease(&mut row, &blue, NOW_MS + 60_000));
    assert!(take(&mut row, "green", 31_000).is_none());
    assert_eq!(lease_holder(&row, NOW_MS + 59_999).unwrap().holder, "blue");

    // Blue stops, as on a deploy, and green takes its competitions over.
    release_lease(&mut row, &blue);
    assert!(lease_holder(&row, NOW_MS).is_none());
    let green = take(&mut row, "green", 31_000).unwrap();
    assert_eq!(green.token, 2);
    assert!(is_held(&row, &green));
    assert!(!is_held(&row, &blue));
}

#[test]
fn a_crashed_coordinators_competitions_move_when_its_lease_expires() {
    let mut row = None;
    let crashed = take(&mut row, "crashed", 0).unwrap();
    assert!(take(&mut row, "green", 29_999).is_none(), "green waits for the lease to expire");
    let taken = take(&mut row, "green", 30_000).unwrap();
    assert!(taken.token > crashed.token);
}

#[test]
fn a_coordinator_that_lost_the_lease_cannot_save_the_competition() {
    let mut row = None;
    let blue = take(&mut row, "blue", 0).unwrap();
    let green = take(&mut row, "green", 30_000).unwrap();
    assert!(!renew_lease(&mut row, &blue, NOW_MS + 90_000));
    release_lease(&mut row, &blue);
    assert!(is_held(&row, &green));
    // Even once it has the lease again, what it held before stays lost.
    release_lease(&mut row, &green);
    let again = take(&mut row, "blue", 30_000).unwrap();
    assert!(again.token > green.token);
    assert!(!is_held(&row, &blue));
    // What a step gave is dropped once a renewal found the lease lost.
    assert!(!lost_after_renewal(false, Some(true)));
    assert!(lost_after_renewal(false, Some(false)));
    assert!(lost_after_renewal(true, Some(true)));
    assert!(!lost_after_renewal(false, None), "a renewal that could not be asked for is tried again");
    assert_eq!(leased_result(5, false), Ok(5));
    assert_eq!(leased_result(5, true), Err(LeaseLost));
}

#[test]
fn leases_are_counted_in_milliseconds() {
    assert_eq!(unix_millis(NOW), NOW_MS);
    assert_eq!(unix_millis(-1), 0);
    assert_eq!(expiry_at(NOW, 30_000_000_000), NOW_MS + 30_000);
    assert!(expiry(30_000_000_000) > 30_000);
    assert_eq!(renewal_interval(30_000_000_000), 10_000_000_000);
}

#[test]
fn a_singleton_worker_runs_in_one_coordinator_until_it_stops() {
    let mut blue = WorkerLeases::new("blue".to_string(), 30_000_000_000);
    let mut green = WorkerLeases::new("green".to_string(), 30_000_000_000);
    let lease = blue.tick("payouts", Some(Some(1))).unwrap();
    assert_eq!((lease.resource.as_str(), lease.holder.as_str()), ("worker:payouts", "blue"));
    assert!(green.tick("payouts", Some(None)).is_none());
    assert_eq!(blue.tick_ended("payouts", Ok::<u8, LeaseLost>(7)), Some(7));
    // Blue stops, and hands its lease over.
    let released = blue.release("payouts").unwrap();
    assert_eq!((released.resource.as_str(), released.token), ("worker:payouts", 1));
    assert!(blue.release("payouts").is_none());
    assert_eq!(green.tick("payouts", Some(Some(2))).unwrap().token, 2);
}

/// Ask the store for the worker's lease at the time `at`, and tick with what it answers.
fn tick(
    leases: &mut WorkerLeases,
    row: &mut Option<LeaseRow>,
    worker: &str,
    at: i64,
) -> Option<Lease> {
    let (kept, granted) = acquire_lease(
        row.take(),
        Lease::worker_resource(worker),
        leases.holder.clone(),
        NOW_MS + at + 30_000,
        NOW_MS + at,
    );
    *row = kept;
    leases.tick(worker, Some(granted.map(|lease| lease.token)))
}

#[test]
fn a_worker_passes_on_through_the_store() {
    let mut blue = WorkerLeases::new("blue".to_string(), 30_000_000_000);
    let mut green = WorkerLeases::new("green".to_string(), 30_000_000_000);
    let (mut payouts, mut refunds) = (None, None);
    assert_eq!(tick(&mut blue, &mut payouts, "payouts", 0).unwrap().token, 1);
    assert!(tick(&mut green, &mut payouts, "payouts", 1_000).is_none());
    assert_eq!(tick(&mut blue, &mut payouts, "payouts", 2_000).unwrap().token, 1);
    // Another worker is leased on its own.
    assert_eq!(tick(&mut green, &mut refunds, "refunds", 2_000).unwrap().token, 1);
    let given_up = blue.release("payouts").unwrap();
    release_lease(&mut payouts, &given_up);
    let taken = tick(&mut green, &mut payouts, "payouts", 3_000).unwrap();
    assert!(taken.token > given_up.token);
    assert!(!renew_lease(&mut payouts, &given_up, NOW_MS + 90_000));
    assert!(is_held(&payouts, &taken));
    assert!(tick(&mut blue, &mut payouts, "payouts", 4_000).is_none());
    // A holder's own lease is extended even where its token cannot be counted further.
    payouts.as_mut().unwrap().token = i64::MAX;
    assert_eq!(tick(&mut green, &mut payouts, "payouts", 5_000).unwrap().token, i64::MAX);
}

#[test]
fn workers_hold_their_leases_apart() {
    let mut leases = WorkerLeases::new("blue".to_string(), 30_000_000_000);
    leases.tick("payouts", Some(Some(1)));
    leases.tick("refunds", Some(Some(4)));
    leases.tick("cleanup", Some(Some(9)));
    // A tick that could not ask keeps what was held, and a lost one gives up its own alone.
    assert!(leases.tick("payouts", None).is_none());
    assert_eq!(leases.tick_ended("cleanup", Err::<u8, LeaseLost>(LeaseLost)), None);
    let mut released: Vec<(String, i64)> =
        leases.release_all().into_iter().map(|lease| (lease.resource, lease.token)).collect();
    released.sort();
    assert_eq!(
        released,
        vec![("worker:payouts".to_string(), 1), ("worker:refunds".to_string(), 4)]
    );
    assert!(leases.release_all().is_empty());
}

#[test]
fn a_wake_reaches_the_coordinator_driving_the_competition() {
    let mut log = WakeLog::new();
    let (blue, green) = ("blue".to_string(), "green".to_string());
    let before = log.last_wake();
    log.record_wake(COMPETITION, blue.clone(), NOW);
    log.record_wake(8, green.clone(), NOW + SECOND);
    let (woken, last) = log.wakes_since(before, &green);
    assert_eq!(woken, vec![COMPETITION]);
    assert_eq!(last, log.last_wake());
    assert_eq!(log.wakes_since(before, &blue).0, vec![8], "a coordinator's own wakes are its own");
    assert_eq!(log.wakes_since(last, &green), (vec![], last));
    log.prune_wakes(NOW + 3_600 * SECOND);
    assert_eq!(log.wakes.len(), 2);
    log.prune_wakes(NOW + 3_601 * SECOND);
    assert_eq!(log.wakes.len(), 1);
    log.prune_wakes(NOW + 9_000 * SECOND);
    assert!(log.wakes.is_empty());
}

fn lease() -> Lease {
    take(&mut None, "blue", 0).unwrap()
}

#[test]
fn a_runner_steps_while_it_holds_the_lease() {
    let pacing = Pacing::default();
    let mut runner = Runner::new();
    assert_eq!(
        runner.react(RunnerEvent::HeldElsewhere, &pacing, NOW),
        RunnerAction::Sleep(2_000_000_000)
    );
    assert_eq!(runner.react(RunnerEvent::Awake, &pacing, NOW), RunnerAction::Acquire);
    assert_eq!(runner.react(RunnerEvent::Taken(lease()), &pacing, NOW), RunnerAction::Step);
    let until = NOW + 60 * SECOND;
    assert_eq!(
        runner.react(RunnerEvent::Stepped(Step::Next(Wait::Until(until))), &pacing, NOW),
        RunnerAction::SleepUntil(until)
    );
    assert_eq!(sleep_length(until, NOW), 60_000_000_000);
    assert_eq!(sleep_length(NOW, until), 0);
    assert_eq!(runner.react(RunnerEvent::Awake, &pacing, NOW), RunnerAction::Step);
    assert_eq!(
        runner.react(RunnerEvent::StepFailed(StepError::LeaseLost), &pacing, NOW),
        RunnerAction::Sleep(2_000_000_000)
    );
    assert!(runner.lease.is_none());
    runner.react(RunnerEvent::Taken(lease()), &pacing, NOW);
    assert_eq!(
        runner.react(RunnerEvent::LostWhileIdle, &pacing, NOW),
        RunnerAction::Acquire
    );
    runner.react(RunnerEvent::Taken(lease()), &pacing, NOW);
    assert_eq!(
        runner.react(RunnerEvent::Stepped(Step::Finished), &pacing, NOW),
        RunnerAction::Stop
    );
    assert!(runner.finished);
}

#[test]
fn shutdown_lets_a_step_finish_and_releases_the_lease() {
    let pacing = Pacing::default();
    let mut runner = Runner::new();
    runner.react(RunnerEvent::Taken(lease()), &pacing, NOW);
    assert_eq!(runner.react(RunnerEvent::Shutdown, &pacing, NOW), RunnerAction::Stop);
    assert!(runner.lease.is_some(), "the lease it holds is there to be released");
    assert!(!runner.finished);
}

#[test]
fn a_state_that_keeps_running_yields_in_the_end() {
    let pacing = Pacing::default();
    let mut runner = Runner::new();
    runner.react(RunnerEvent::Taken(lease()), &pacing, NOW);
    let now = || RunnerEvent::Stepped(Step::Next(Wait::Now));
    for _ in 0..10 {
        assert_eq!(runner.react(now(), &pacing, NOW), RunnerAction::Step);
    }
    assert_eq!(
        runner.react(now(), &pacing, NOW),
        RunnerAction::SleepUntil(NOW + 15 * SECOND)
    );
    assert_eq!(runner.react(now(), &pacing, NOW), RunnerAction::Step);
}

#[test]
fn a_failing_runner_backs_off_to_a_limit() {
    let pacing = Pacing::default();
    assert_eq!(pacing.backoff(0), 5_000_000_000);
    assert_eq!(pacing.backoff(1), 5_000_000_000);
    assert_eq!(pacing.backoff(2), 10_000_000_000);
    assert_eq!(pacing.backoff(6), 160_000_000_000);
    assert_eq!(pacing.backoff(7), 300_000_000_000);
    assert_eq!(pacing.backoff(u32::MAX), 300_000_000_000);
    let mut runner = Runner::new();
    assert_eq!(
        runner.react(RunnerEvent::AcquireFailed, &pacing, NOW),
        RunnerAction::Sleep(5_000_000_000)
    );
    runner.react(RunnerEvent::Taken(lease()), &pacing, NOW);
    let failed = RunnerEvent::StepFailed(StepError::Failed("LND unavailable".to_string()));
    assert_eq!(
        runner.react(failed, &pacing, NOW),
        RunnerAction::SleepUntil(NOW + 10 * SECOND)
    );
    runner.react(RunnerEvent::Stepped(Step::Next(Wait::Now)), &pacing, NOW);
    assert_eq!(runner.failures, 0);
}

#[test]
fn a_repeated_condition_is_reported_once() {
    let mut reported = Reported::default();
    let subject = uuid::Uuid::now_v7().as_u128();
    assert!(reported.is_new("swap", subject, "no VTXO"));
    assert!(!reported.is_new("swap", subject, "no VTXO"));
    assert!(reported.is_new("refund", subject, "no VTXO"), "topics are separate");
    assert!(reported.is_new("swap", subject, "wrong amount"), "a different condition is news");
    reported.clear("swap", subject);
    assert!(
        reported.is_new("swap", subject, "wrong amount"),
        "a condition that cleared and came back is news"
    );
}

#[test]
fn one_runner_drives_a_competition_at_a_time() {
    assert!(should_start(false, None), "one that was never started");
    assert!(should_start(false, Some(true)), "one that ended or panicked");
    assert!(!should_start(false, Some(false)), "one that is running");
    for finished in [None, Some(true), Some(false)] {
        assert!(!should_start(true, finished), "none is started on the way out");
    }
}
