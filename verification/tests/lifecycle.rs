use competitions::advance::{
    close_advance, handle_competition, handle_next, open_advance, Handling, Opening,
    MAX_CONSECUTIVE_STATES,
};
use competitions::clock::{Timestamp, HOUR, SECOND};
use competitions::competition::{Competition, CompetitionState, CreateEvent};
use competitions::contract::{ContractParameters, EventAnnouncement, OutcomePayouts, SigMap};
use competitions::lifecycle::{Coordinator, Report, Turn, Work, WorkError};
use competitions::publishing::{step_was_done, SettlementStep};
use competitions::runners::{Step, Wait};
use competitions::settlement::Winner;
use competitions::states::{CompetitionStatus, HasCompetitionData, StatusKind};
use std::collections::BTreeMap;

const DAY: Timestamp = 24 * HOUR;
const NOW: Timestamp = 1_800_000_000 * SECOND;
const KEPT_SETTLEMENT_ERRORS: usize = 5;

fn coordinator() -> Coordinator {
    Coordinator {
        escrow_enabled: false,
        keymeld_enabled: false,
        required_confirmations: 1,
        invoice_settlement_confirmations: 1,
        relative_locktime_block_delta: 72,
        automatic_payouts: false,
        automatic_payout_max_fee_rate: 0,
        tolerated_errors: 3,
        kept_settlement_errors: KEPT_SETTLEMENT_ERRORS,
    }
}

fn event(start: Timestamp, places: usize) -> CreateEvent {
    CreateEvent {
        id: 7,
        signing_date: start + 2 * DAY,
        start_observation_date: start,
        end_observation_date: start + DAY,
        locations: vec!["KORD".to_string()],
        number_of_values_per_entry: 3,
        number_of_places_win: 1,
        total_allowed_entries: places,
        entry_fee: 1_000,
        coordinator_fee_percentage: 10,
        total_competition_pool: 2_700,
        relative_locktime_block_delta: None,
        unlisted: false,
    }
}

fn competition() -> Competition {
    Competition::new(event(1_900_000_000 * SECOND, 3), NOW)
}

fn parameters() -> ContractParameters {
    ContractParameters {
        market_maker: vec![2; 33],
        players: vec![],
        event: EventAnnouncement { locking_points: vec![vec![3; 33]], expiry: None },
        outcome_payouts: OutcomePayouts {
            attestations: BTreeMap::from([(0, BTreeMap::from([(0, 100)]))]),
            expiry: None,
        },
        fee_rate: 250,
        funding_value: 100_000,
        relative_locktime_block_delta: 72,
    }
}

/// A filled competition whose contract funding has confirmed, so the pot is on-chain.
fn funded_competition() -> Competition {
    let mut competition = Competition::new(event(NOW - 3 * HOUR, 2), NOW - 5 * HOUR);
    competition.total_entries = 2;
    competition.total_paid_entries = 2;
    competition.contract_parameters = Some(parameters());
    competition.contracted_at = Some(NOW - 4 * HOUR);
    competition.signed_at = Some(NOW - 4 * HOUR);
    competition.funding_broadcasted_at = Some(NOW - 4 * HOUR);
    competition.funding_confirmed_at = Some(NOW - 4 * HOUR);
    competition.funding_settled_at = Some(NOW - 4 * HOUR);
    competition.awaiting_attestation_at = Some(NOW - 4 * HOUR);
    competition
}

/// What a runner logs as the next state must be what the next step loads.
fn stored(status: CompetitionStatus) -> &'static str {
    CompetitionStatus::load(status.into_competition()).state_name()
}

fn failed(message: &str) -> Report {
    Report::Failed(WorkError { message: message.to_string(), transient: false })
}

#[test]
fn a_competition_without_entries_loads_as_created() {
    assert_eq!(CompetitionStatus::load(competition()).state_name(), "created");
    assert_eq!(CompetitionStatus::from(competition()).state_name(), "created");
}

#[test]
fn the_first_entry_loads_a_competition_as_collecting_entries() {
    let mut competition = competition();
    competition.total_entries = 1;
    let status = CompetitionStatus::from(competition);
    assert_eq!(
        status.state_name(),
        "collecting_entries",
        "a competition with some entries reloads as collecting them, not as created"
    );
    assert_eq!(stored(status), "collecting_entries");
}

#[test]
fn a_partly_filled_competition_stays_collecting_entries() {
    let mut competition = competition();
    competition.total_entries = 2;
    competition.total_paid_entries = 2;
    let status = CompetitionStatus::from(competition);
    assert_eq!(status.state_name(), "collecting_entries");
    assert_eq!(stored(status), "collecting_entries");
}

#[test]
fn a_full_paid_competition_still_loads_as_awaiting_escrow() {
    let mut competition = competition();
    competition.total_entries = 3;
    competition.total_paid_entries = 3;
    assert_eq!(CompetitionStatus::from(competition).state_name(), "awaiting_escrow");
}

#[test]
fn a_legacy_contract_waits_for_nonces_in_the_state_it_reloads_as() {
    let coordinator = coordinator();
    assert!(!coordinator.is_keymeld_enabled());
    let mut competition = Competition::new(event(NOW + HOUR, 2), NOW);
    competition.total_entries = 2;
    competition.total_paid_entries = 2;
    // One player has sent nonces; the other has not yet.
    competition.total_entry_nonces = 1;
    competition.contract_parameters = Some(parameters());
    competition.contracted_at = Some(NOW);
    competition.public_nonces = Some(SigMap::Empty);

    let status = CompetitionStatus::from(competition);
    assert_eq!(status.state_name(), "contract_created");
    let next = match coordinator.process_status(status, NOW) {
        Turn::Done(next) => next,
        Turn::Do(_, _) => panic!("nothing is to be done yet"),
    };
    assert_eq!(next.state_name(), "contract_created");
    assert_eq!(
        CompetitionStatus::from(next.into_competition()).state_name(),
        "contract_created",
        "the state a waiting legacy contract moves to is the one it reloads as"
    );
}

#[test]
fn settlement_errors_are_retried_instead_of_failing_the_competition() {
    let coordinator = coordinator();
    let mut outcome = funded_competition();
    outcome.outcome_broadcasted_at = Some(NOW);
    let mut delta = funded_competition();
    delta.outcome_broadcasted_at = Some(NOW);
    delta.delta_broadcasted_at = Some(NOW);

    for (competition, state) in [(outcome, "outcome_broadcasted"), (delta, "delta_broadcasted")] {
        let mut status = CompetitionStatus::from(competition);
        assert_eq!(status.state_name(), state);
        // More errors than a pre-funding step tolerates before it fails.
        for _ in 0..(KEPT_SETTLEMENT_ERRORS + 3) {
            status = match coordinator.process_status(status, NOW) {
                Turn::Do(status, work) => {
                    match coordinator.resume_status(status, work, failed("no contract"), NOW) {
                        Turn::Done(status) => status,
                        Turn::Do(_, _) => panic!("an error ends the step"),
                    }
                }
                Turn::Done(_) => panic!("settling needs work"),
            };
            assert_eq!(status.state_name(), state, "an error does not end settlement");
        }
        let competition = status.into_competition();
        assert!(competition.failed_at.is_none());
        assert!(competition.cancelled_at.is_none());
        assert_eq!(
            competition.errors.len(),
            KEPT_SETTLEMENT_ERRORS,
            "the latest errors are kept, and the list stays bounded"
        );
        assert_eq!(
            CompetitionStatus::from(competition).state_name(),
            state,
            "it reloads in the state it retries from"
        );
    }
}

#[test]
fn a_half_done_publication_is_kept_and_asked_for_again() {
    let coordinator = coordinator();
    let mut competition = funded_competition();
    competition.outcome_broadcasted_at = Some(NOW);
    let mut status = CompetitionStatus::from(competition);
    for _ in 0..2 {
        status = match coordinator.process_status(status, NOW) {
            Turn::Do(CompetitionStatus::OutcomeBroadcasted(mut state), Work::PublishDelta) => {
                // The outcome is split, and closing a share fails.
                let winner =
                    Winner { player_index: 0, entry_index: 0, entry_id: 101, ticket_id: 201 };
                let split = SettlementStep::Split(winner);
                step_was_done(state.competition_mut(), &split, NOW);
                let status = CompetitionStatus::OutcomeBroadcasted(state);
                match coordinator.resume_status(status, Work::PublishDelta, failed("closing"), NOW) {
                    Turn::Done(status) => status,
                    Turn::Do(_, _) => panic!("an error ends the step"),
                }
            }
            _ => panic!("the outcome is to be published"),
        };
        assert_eq!(status.state_name(), "outcome_broadcasted");
        assert_eq!(status.competition().delta_broadcasted_at, Some(NOW));
    }
    assert_eq!(stored(status), "delta_broadcasted");
}

#[test]
fn stranded_settlements_resume_and_unfunded_cancellations_stay() {
    let mut stranded = funded_competition();
    stranded.outcome_broadcasted_at = Some(NOW - 3 * HOUR);
    stranded.delta_broadcasted_at = Some(NOW - HOUR);
    stranded.failed_at = Some(NOW - HOUR);
    stranded.cancelled_at = Some(NOW);

    let mut unfunded = funded_competition();
    unfunded.funding_broadcasted_at = None;
    unfunded.funding_confirmed_at = None;
    unfunded.funding_settled_at = None;
    unfunded.awaiting_attestation_at = None;
    unfunded.failed_at = Some(NOW - HOUR);
    unfunded.cancelled_at = Some(NOW);

    let mut settled = funded_competition();
    settled.outcome_broadcasted_at = Some(NOW - 3 * HOUR);
    settled.completed_at = Some(NOW);

    assert!(stranded.resume_stranded_settlement());
    assert!(!stranded.resume_stranded_settlement(), "only once");
    assert_eq!(
        CompetitionStatus::from(stranded).state_name(),
        "delta_broadcasted",
        "it resumes where settlement stopped"
    );
    assert!(!unfunded.resume_stranded_settlement());
    assert!(unfunded.is_cancelled());
    assert!(!settled.resume_stranded_settlement());
    assert!(settled.is_completed());
}

#[test]
fn a_stranded_pot_is_stepped_again() {
    let mut stranded = funded_competition();
    stranded.outcome_broadcasted_at = Some(NOW - 3 * HOUR);
    stranded.failed_at = Some(NOW - 2 * HOUR);
    stranded.cancelled_at = Some(NOW - HOUR);
    let (opening, resumed) = open_advance(stranded, NOW);
    assert!(resumed);
    match opening {
        Opening::Step(competition) => {
            assert!(competition.failed_at.is_none());
            assert!(competition.cancelled_at.is_none());
            assert_eq!(competition.get_state(), CompetitionState::OutcomeBroadcasted);
        }
        _ => panic!("the pot is still held"),
    }
}

#[test]
fn a_failed_competition_stays_visible_for_an_hour() {
    let mut failed = competition();
    failed.failed_at = Some(NOW);
    match open_advance(failed, NOW + HOUR - 1).0 {
        Opening::WaitUntil(at) => assert_eq!(at, NOW + HOUR),
        _ => panic!("it waits"),
    }
    let mut failed = competition();
    failed.failed_at = Some(NOW);
    match open_advance(failed, NOW + HOUR).0 {
        Opening::CancelFailed(competition) => {
            assert_eq!(competition.cancelled_at, Some(NOW + HOUR));
        }
        _ => panic!("it is cancelled"),
    }
}

#[test]
fn an_unsigned_competition_expires_when_its_observations_begin() {
    let start = 1_900_000_000 * SECOND;
    assert!(matches!(open_advance(competition(), start - 1).0, Opening::Step(_)));
    match open_advance(competition(), start).0 {
        Opening::CancelExpired(competition) => assert_eq!(competition.cancelled_at, Some(start)),
        _ => panic!("it expired"),
    }
    let mut signed = competition();
    signed.signed_at = Some(NOW);
    assert!(matches!(open_advance(signed, start).0, Opening::Step(_)));
    let mut completed = competition();
    completed.completed_at = Some(NOW);
    assert!(matches!(open_advance(completed, NOW).0, Opening::Finished));
}

#[test]
fn a_step_is_followed_at_once_only_where_nothing_outside_is_needed() {
    let idle = 15_000_000_000;
    let mut moved = competition();
    moved.total_entries = 3;
    moved.total_paid_entries = 3;
    moved.escrow_funds_confirmed_at = Some(NOW);
    let closing =
        close_advance(StatusKind::AwaitingEscrow, CompetitionStatus::load(moved), NOW, idle);
    assert_eq!(closing.stored, StatusKind::EscrowConfirmed);
    assert_eq!(closing.moved_to, StatusKind::EscrowConfirmed);
    assert!(!closing.died);
    assert_eq!(closing.step, Step::Next(Wait::Now));

    let again = CompetitionStatus::load(closing.competition);
    let closing = close_advance(StatusKind::EscrowConfirmed, again, NOW, idle);
    assert_eq!(closing.step, Step::Next(Wait::Until(NOW + 15 * SECOND)));
}

#[test]
fn a_competition_that_died_is_not_stepped_on() {
    let failed = CompetitionStatus::load(competition()).fail_at(
        competitions::competition::CompetitionError::FailedBroadcast("x".to_string()),
        NOW,
    );
    assert_eq!(failed.state_name(), "failed");
    let closing = close_advance(StatusKind::Created, failed, NOW, 15_000_000_000);
    assert!(closing.died);
    assert_eq!(closing.step, Step::Next(Wait::Until(NOW + HOUR)));

    let cancelled = CompetitionStatus::load(competition()).cancel_at("late".to_string(), NOW);
    assert!(cancelled.is_terminal());
    let closing = close_advance(StatusKind::Created, cancelled, NOW, 15_000_000_000);
    assert!(closing.died);
    assert_eq!(closing.step, Step::Finished);
}

#[test]
fn awaiting_an_attestation_waits_for_the_signing_date() {
    let mut waiting = funded_competition();
    waiting.event_submission.signing_date = NOW + DAY;
    let status = CompetitionStatus::load(waiting);
    assert_eq!(status.state_name(), "awaiting_attestation");
    let at = status.next_check(NOW, 15 * SECOND);
    assert!(at > NOW + 15 * SECOND);
    assert!(at <= NOW + DAY);
}

#[test]
fn a_sweep_cancels_what_failed_an_hour_ago() {
    let mut failed = competition();
    failed.failed_at = Some(NOW - HOUR);
    assert!(matches!(handle_competition(failed, NOW), Handling::Cancel(_)));
    let mut failed = competition();
    failed.failed_at = Some(NOW - HOUR + 1);
    assert!(matches!(handle_competition(failed, NOW), Handling::Skip));
    assert!(matches!(handle_competition(competition(), NOW), Handling::Step(_)));
    let late = 1_900_000_000 * SECOND;
    assert!(matches!(handle_competition(competition(), late), Handling::Cancel(_)));
}

#[test]
fn a_sweep_takes_a_competition_through_so_many_states_at_most() {
    let mut moved = competition();
    moved.escrow_funds_confirmed_at = Some(NOW);
    let status = CompetitionStatus::load(moved);
    let (again, processed) = handle_next(0, StatusKind::AwaitingEscrow, &status);
    assert!(again);
    assert_eq!(processed, 1);
    let last = MAX_CONSECUTIVE_STATES - 1;
    let (again, _) = handle_next(last, StatusKind::AwaitingEscrow, &status);
    assert!(!again);
    let (again, _) = handle_next(0, StatusKind::EscrowConfirmed, &status);
    assert!(!again, "it did not move");
}

#[test]
fn a_competition_walks_from_escrow_to_completion() {
    let coordinator = coordinator();
    let mut competition = Competition::new(event(NOW + HOUR, 2), NOW);
    competition.total_entries = 2;
    competition.total_paid_entries = 2;
    let status = CompetitionStatus::load(competition);
    let (status, work) = match coordinator.process_status(status, NOW) {
        Turn::Do(status, work) => (status, work),
        Turn::Done(_) => panic!("escrow has to be looked up"),
    };
    assert_eq!(work, Work::CheckEscrow);
    let mut competition = status.into_competition();
    competition.escrow_funds_confirmed_at = Some(NOW);
    let status = CompetitionStatus::AwaitingEscrow(
        competitions::states::AwaitingEscrow::from_competition(competition),
    );
    let status = match coordinator.resume_status(status, work, Report::Done, NOW) {
        Turn::Done(status) => status,
        Turn::Do(_, _) => panic!("the escrow is confirmed"),
    };
    assert_eq!(status.state_name(), "escrow_confirmed");
    assert!(status.is_immediate_transition());
    match coordinator.process_status(status, NOW) {
        Turn::Do(_, work) => assert_eq!(work, Work::SubmitEvent),
        Turn::Done(_) => panic!("the oracle has to be asked"),
    }
}

#[test]
fn too_many_errors_before_the_pot_is_held_fail_a_competition() {
    let coordinator = coordinator();
    let mut competition = Competition::new(event(NOW + HOUR, 2), NOW);
    competition.total_entries = 2;
    competition.total_paid_entries = 2;
    competition.escrow_funds_confirmed_at = Some(NOW);
    let mut status = CompetitionStatus::load(competition);
    let mut steps: usize = 0;
    while status.state_name() != "failed" && steps < 20 {
        status = match coordinator.process_status(status, NOW) {
            Turn::Do(status, work) => {
                match coordinator.resume_status(status, work, failed("oracle"), NOW) {
                    Turn::Done(status) => status,
                    Turn::Do(_, _) => panic!("an error ends the step"),
                }
            }
            Turn::Done(status) => status,
        };
        steps += 1;
    }
    assert_eq!(status.state_name(), "failed");
    assert_eq!(status.into_competition().failed_at, Some(NOW));
}

#[test]
fn ended_competitions_stay_as_they_are() {
    let coordinator = coordinator();
    let mut completed = competition();
    completed.completed_at = Some(NOW);
    let status = CompetitionStatus::load(completed);
    assert!(status.is_terminal());
    match coordinator.process_status(status, NOW) {
        Turn::Done(status) => assert_eq!(status.state_name(), "completed"),
        Turn::Do(_, _) => panic!("nothing is left to do"),
    }
}
