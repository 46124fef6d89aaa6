use competitions::clock::{HOUR, SECOND};
use competitions::competition::{Competition, CreateEvent};
use competitions::contract::{
    ContractParameters, EventAnnouncement, OutPoint, Outcome, OutcomePayouts, Player,
    SignedContract, Transaction,
};
use competitions::entering::AddEntry;
use competitions::entries::{Ticket, UserEntry};
use competitions::lifecycle::Coordinator;
use competitions::metrics::{competition_state_counts, store_counts, StoreCounts};
use competitions::outcome::{
    attestation_need, event_answered, expiry_step, expiry_was_broadcast, is_valid_outcome,
    outcome_was_broadcast, outcome_was_built, plan_outcome_transaction, AttestationNeed,
    EventAnswer, ExpiryStep, OutcomePlan, OutcomeStep,
};
use competitions::payout_jobs::{Payout, PayoutJob, PayoutLedger};
use competitions::progress::{
    check_entry_submissions, clear_errors, entries_were_submitted, escrow_transactions,
    event_was_announced, event_was_created, keygen_was_completed, needs_event, tickets_to_settle,
    ProgressError,
};
use competitions::settlement::{
    confirmation_depth, delta_was_broadcast, get_current_outcome, plan_delta2_transactions,
    plan_delta_transactions, reclaims_were_broadcast, verify_event_attestation, winner_indices,
    DeltaPlan, ReclaimPlan, SettlementError, Winner,
};
use competitions::states::{CompetitionStatus, StatusKind};
use competitions::tickets::TicketStatus;
use dlctix::secp::Scalar;
use std::collections::BTreeMap;

const NOW: i128 = 1_800_000_000 * SECOND;
const MINUTE: i128 = 60 * SECOND;
const EVENT: u128 = 1;

fn point(byte: u8) -> Vec<u8> {
    Scalar::from_slice(&[byte; 32]).unwrap().base_point_mul().serialize().to_vec()
}

fn parameters() -> ContractParameters {
    ContractParameters {
        market_maker: point(9),
        players: [1u8, 3, 5]
            .into_iter()
            .map(|key| Player {
                pubkey: point(key),
                ticket_hash: vec![key; 32],
                payout_hash: vec![key; 32],
            })
            .collect(),
        event: EventAnnouncement {
            locking_points: vec![point(10), point(11)],
            expiry: Some(1_800_000_000),
        },
        outcome_payouts: OutcomePayouts {
            attestations: BTreeMap::from([(1, BTreeMap::from([(2, 40), (0, 60)]))]),
            expiry: Some(BTreeMap::from([(0, 34), (1, 33), (2, 33)])),
        },
        fee_rate: 250,
        funding_value: 150_000,
        relative_locktime_block_delta: 72,
    }
}

/// Attested with the key 11: the players with the keys 1 and 5 win, the one with 3 does not.
fn competition() -> Competition {
    let mut competition = Competition::new(
        CreateEvent {
            id: EVENT,
            signing_date: NOW,
            start_observation_date: NOW,
            end_observation_date: NOW,
            locations: vec![],
            number_of_values_per_entry: 3,
            number_of_places_win: 2,
            total_allowed_entries: 3,
            entry_fee: 50_000,
            coordinator_fee_percentage: 0,
            total_competition_pool: 150_000,
            relative_locktime_block_delta: None,
            unlisted: false,
        },
        NOW,
    );
    competition.event_announcement = Some(parameters().event);
    competition.attestation = Some(vec![11; 32]);
    competition.signed_contract = Some(SignedContract {
        params: parameters(),
        funding_outpoint: OutPoint { txid: vec![5; 32], vout: 0 },
        encoded: String::new(),
    });
    competition.outcome_transaction = Some(Transaction { raw: vec![1] });
    competition.outcome_broadcasted_at = Some(NOW);
    competition
}

fn entry(key: u8) -> UserEntry {
    AddEntry {
        id: 100 + key as u128,
        ticket_id: 200 + key as u128,
        event_id: EVENT,
        ephemeral_pubkey: hex::encode(point(key)),
        payout_hash: hex::encode([key; 32]),
        expected_observations: vec![],
        encrypted_keymeld_private_key: None,
        keymeld_auth_pubkey: None,
        keymeld_registration_context: None,
    }
    .into_user_entry("owner".to_string())
}

fn paid(key: u8) -> UserEntry {
    let mut entry = entry(key);
    entry.paid_out_at = Some(NOW);
    entry.ephemeral_privatekey = Some(hex::encode([key; 32]));
    entry
}

fn winner(player_index: usize, entry_index: usize, key: u8) -> Winner {
    Winner {
        player_index,
        entry_index,
        entry_id: 100 + key as u128,
        ticket_id: 200 + key as u128,
    }
}

fn ticket(id: u128) -> Ticket {
    Ticket {
        id,
        competition_id: EVENT,
        entry_id: None,
        encrypted_preimage: String::new(),
        hash: String::new(),
        payment_request: None,
        invoice_expires_at: None,
        expiry: NOW,
        ephemeral_pubkey: None,
        reserved_by: None,
        reserved_at: None,
        paid_at: None,
        settled_at: None,
        escrow_transaction: None,
    }
}

#[test]
fn confirmation_requirements_count_blocks_since_inclusion() {
    assert_eq!(confirmation_depth(900_000, 900_000), 1);
    assert_eq!(confirmation_depth(900_004, 900_000), 5);
    assert_eq!(confirmation_depth(900_005, 900_000), 6);
    assert_eq!(confirmation_depth(899_999, 900_000), 0);
}

#[test]
fn an_attestation_names_the_outcome_it_unlocks() {
    let event = parameters().event;
    assert_eq!(verify_event_attestation(&event, &vec![11; 32]), Some(1));
    assert_eq!(verify_event_attestation(&event, &vec![12; 32]), None);
    assert_eq!(verify_event_attestation(&event, &vec![0; 32]), None);
    let mut competition = competition();
    assert_eq!(get_current_outcome(&competition), Ok(Outcome::Attestation(1)));
    competition.attestation = Some(vec![12; 32]);
    assert_eq!(get_current_outcome(&competition), Err(SettlementError::UnknownOutcome));
    competition.event_announcement = None;
    assert_eq!(get_current_outcome(&competition), Err(SettlementError::NoAnnouncement));
    competition.attestation = None;
    assert_eq!(get_current_outcome(&competition), Err(SettlementError::NoAttestation));
    competition.expiry_broadcasted_at = Some(NOW);
    assert_eq!(get_current_outcome(&competition), Ok(Outcome::Expiry));
    assert_eq!(winner_indices(&BTreeMap::from([(2, 40), (0, 60)])), vec![0, 2]);
}

fn delta(competition: &Competition, height: u32, entries: Vec<UserEntry>) -> DeltaPlan {
    plan_delta_transactions(competition, height, Some(1_000), &entries).unwrap()
}

#[test]
fn paid_winners_are_closed_after_the_first_timelock() {
    let everyone = || vec![entry(3), paid(5), paid(1)];
    assert!(matches!(delta(&competition(), 1_071, everyone()), DeltaPlan::Wait(1)));
    let both = vec![winner(0, 2, 1), winner(2, 1, 5)];
    assert!(matches!(
        delta(&competition(), 1_072, everyone()),
        DeltaPlan::Close { broadcast: true, winners } if winners == both
    ));
    let mut settled = competition();
    delta_was_broadcast(&mut settled, NOW);
    assert!(matches!(
        delta(&settled, 1_072, everyone()),
        DeltaPlan::Close { broadcast: false, winners } if winners == both
    ));
}

#[test]
fn unpaid_winners_have_the_pot_split_after_the_second_timelock() {
    let some = || vec![entry(3), paid(5), entry(1)];
    assert!(matches!(delta(&competition(), 1_072, some()), DeltaPlan::Wait(72)));
    assert!(matches!(
        delta(&competition(), 1_144, some()),
        DeltaPlan::Split { split_with: Some(with), closes }
            if with == winner(2, 1, 5) && closes == vec![winner(2, 1, 5)]
    ));
    let nobody = || vec![entry(3), entry(5), entry(1)];
    assert!(matches!(
        delta(&competition(), 1_144, nobody()),
        DeltaPlan::Split { split_with: Some(with), closes }
            if with == winner(0, 2, 1) && closes.is_empty()
    ));
    let mut split = competition();
    split.delta_broadcasted_at = Some(NOW);
    assert!(matches!(
        delta(&split, 1_144, nobody()),
        DeltaPlan::Split { split_with: None, closes } if closes.is_empty()
    ));
    assert_eq!(
        plan_delta_transactions(&competition(), 1_144, Some(1_000), &vec![entry(3)]).unwrap_err(),
        SettlementError::NoWinnerEntry
    );
}

#[test]
fn settling_waits_for_the_outcome_transaction() {
    assert!(matches!(
        plan_delta_transactions(&competition(), 1_072, None, &vec![]),
        Ok(DeltaPlan::Unconfirmed)
    ));
    let refused = |height: u32, change: fn(&mut Competition)| {
        let mut changed = competition();
        change(&mut changed);
        let first = plan_delta_transactions(&changed, height, Some(1_000), &vec![]).unwrap_err();
        let second = plan_delta2_transactions(&changed, height, Some(1_000), &vec![]).unwrap_err();
        assert_eq!(first, second);
        first
    };
    assert_eq!(refused(999, |_| ()), SettlementError::TipBehindOutcome);
    assert_eq!(
        refused(2_000, |c| c.signed_contract = None),
        SettlementError::NoSignedContract
    );
    assert_eq!(
        refused(2_000, |c| c.outcome_broadcasted_at = None),
        SettlementError::NoOutcomeBroadcast
    );
    assert_eq!(
        refused(2_000, |c| c.outcome_transaction = None),
        SettlementError::NoOutcomeTransaction
    );
    assert_eq!(
        refused(2_000, |c| c.attestation = Some(vec![10; 32])),
        SettlementError::NoPayout
    );
}

#[test]
fn only_unclaimed_shares_are_reclaimed() {
    let mut reclaimed = entry(5);
    reclaimed.reclaimed_broadcasted_at = Some(NOW);
    let planned = |height: u32, entries: Vec<UserEntry>| {
        plan_delta2_transactions(&competition(), height, Some(1_000), &entries).unwrap()
    };
    assert!(matches!(planned(1_143, vec![]), ReclaimPlan::Wait(1)));
    assert!(matches!(
        planned(1_144, vec![entry(1), entry(3), entry(5)]),
        ReclaimPlan::Reclaim(winners) if winners == vec![winner(0, 0, 1), winner(2, 2, 5)]
    ));
    assert!(matches!(
        planned(1_144, vec![paid(1), entry(3), reclaimed]),
        ReclaimPlan::Reclaim(winners) if winners.is_empty()
    ));
    assert!(matches!(
        plan_delta2_transactions(&competition(), 1_144, None, &vec![]),
        Ok(ReclaimPlan::Unconfirmed)
    ));
    let mut done = competition();
    reclaims_were_broadcast(&mut done, NOW);
    assert_eq!(done.completed_at, Some(NOW));
}

#[test]
fn an_event_is_asked_for_until_it_is_attested() {
    let mut competition = competition();
    assert_eq!(attestation_need(&competition), Ok(AttestationNeed::Nothing));
    competition.attestation = None;
    assert_eq!(attestation_need(&competition), Ok(AttestationNeed::Event));
    assert_eq!(
        event_answered(&mut competition, None),
        Ok(EventAnswer::CheckExpiry(1_800_000_000))
    );
    assert_eq!(
        event_answered(&mut competition, Some(vec![12; 32])),
        Err(SettlementError::UnknownOutcome)
    );
    assert!(competition.attestation.is_none());
    assert_eq!(
        event_answered(&mut competition, Some(vec![10; 32])),
        Ok(EventAnswer::Attested(0))
    );
    assert_eq!(competition.attestation, Some(vec![10; 32]));
    competition.attestation = None;
    competition.signed_contract.as_mut().unwrap().params.event.expiry = None;
    assert_eq!(event_answered(&mut competition, None), Ok(EventAnswer::Silent));
    competition.signed_contract = None;
    assert_eq!(attestation_need(&competition), Err(SettlementError::NoSignedContract));
}

#[test]
fn an_expired_contract_is_published_once() {
    let mut competition = competition();
    assert_eq!(expiry_step(&competition, 100, 100, true), Ok(ExpiryStep::Wait));
    assert_eq!(expiry_step(&competition, 100, 101, true), Ok(ExpiryStep::Broadcast));
    assert_eq!(
        expiry_step(&competition, 100, 101, false),
        Err(SettlementError::NoExpiryTransaction)
    );
    expiry_was_broadcast(&mut competition, NOW);
    assert_eq!(expiry_step(&competition, 100, 101, true), Ok(ExpiryStep::AlreadyBroadcast));
}

#[test]
fn an_outcome_is_built_and_published_once() {
    let mut competition = competition();
    assert_eq!(plan_outcome_transaction(&competition), Ok(OutcomePlan::Published));
    competition.outcome_broadcasted_at = None;
    assert_eq!(plan_outcome_transaction(&competition), Ok(OutcomePlan::Build(1)));
    assert!(is_valid_outcome(&parameters().event, 1));
    assert!(!is_valid_outcome(&parameters().event, 2));
    assert_eq!(
        outcome_was_built(&mut competition, Transaction { raw: vec![7] }),
        OutcomeStep::Broadcast
    );
    assert_eq!(competition.outcome_transaction.as_ref().unwrap().raw, vec![7]);
    outcome_was_broadcast(&mut competition, NOW);
    assert_eq!(competition.outcome_broadcasted_at, Some(NOW));
    assert_eq!(
        outcome_was_built(&mut competition, Transaction { raw: vec![7] }),
        OutcomeStep::CheckExpiry(1_800_000_000)
    );
    competition.event_announcement.as_mut().unwrap().expiry = None;
    assert_eq!(
        outcome_was_built(&mut competition, Transaction { raw: vec![7] }),
        OutcomeStep::Done
    );
    competition.outcome_broadcasted_at = None;
    competition.signed_contract = None;
    assert_eq!(
        plan_outcome_transaction(&competition),
        Err(SettlementError::NoSignedContract)
    );
    competition.attestation = None;
    competition.expiry_broadcasted_at = Some(NOW);
    assert_eq!(plan_outcome_transaction(&competition), Err(SettlementError::NoAttestation));
}

fn coordinator() -> Coordinator {
    Coordinator {
        escrow_enabled: true,
        keymeld_enabled: false,
        required_confirmations: 2,
        invoice_settlement_confirmations: 1,
        relative_locktime_block_delta: 72,
        automatic_payouts: false,
        automatic_payout_max_fee_rate: 0,
        tolerated_errors: 3,
        kept_settlement_errors: 5,
    }
}

/// A transaction with one output, and its id.
fn raw_transaction() -> (String, Vec<u8>) {
    let transaction = bitcoin::Transaction {
        version: bitcoin::transaction::Version::TWO,
        lock_time: bitcoin::absolute::LockTime::ZERO,
        input: vec![bitcoin::TxIn::default()],
        output: vec![bitcoin::TxOut {
            value: bitcoin::Amount::from_sat(5),
            script_pubkey: bitcoin::ScriptBuf::new(),
        }],
    };
    let txid = transaction.compute_txid();
    let bytes: &[u8] = txid.as_ref();
    (bitcoin::consensus::encode::serialize_hex(&transaction), bytes.to_vec())
}

#[test]
fn escrows_are_looked_up_until_all_are_confirmed() {
    let (escrow, txid) = raw_transaction();
    let mut locked = ticket(7);
    locked.escrow_transaction = Some(escrow);
    let escrows = escrow_transactions(&vec![ticket(6), locked]).unwrap();
    assert_eq!(escrows.len(), 1);
    assert_eq!((escrows[0].ticket_id, &escrows[0].txid), (7, &txid));
    let mut broken = ticket(8);
    broken.escrow_transaction = Some("cafe".to_string());
    assert_eq!(
        escrow_transactions(&vec![broken]).unwrap_err(),
        ProgressError::InvalidEscrow(8)
    );
    let mut competition = competition();
    let mut checked = |confirmations: Vec<Option<u32>>| {
        let all = coordinator().escrows_checked(&mut competition, &confirmations, NOW);
        (all, competition.escrow_funds_confirmed_at)
    };
    assert_eq!(checked(vec![Some(2), None]), (false, None));
    assert_eq!(checked(vec![Some(2), Some(1)]), (false, None));
    assert_eq!(checked(vec![Some(2), Some(3)]), (true, Some(NOW)));
}

#[test]
fn funding_is_confirmed_at_the_required_depth() {
    let coordinator = coordinator();
    let mut competition = competition();
    assert_eq!(
        coordinator.funding_looked_up(&mut competition, Some(2), NOW),
        Err(ProgressError::NoFundingTransaction)
    );
    competition.funding_transaction = Some(Transaction { raw: vec![1] });
    coordinator.funding_looked_up(&mut competition, Some(1), NOW).unwrap();
    assert_eq!(competition.funding_confirmed_at, None);
    coordinator.funding_looked_up(&mut competition, Some(2), NOW).unwrap();
    assert_eq!(competition.funding_confirmed_at, Some(NOW));
    coordinator.funding_looked_up(&mut competition, Some(9), NOW + HOUR).unwrap();
    assert_eq!(competition.funding_confirmed_at, Some(NOW));
}

#[test]
fn the_oracle_gets_the_event_and_the_entries_once() {
    let mut competition = competition();
    let state = competition.get_state();
    event_was_announced(&mut competition, parameters().event);
    assert_eq!(competition.event_announcement.as_ref().unwrap().expiry, Some(1_800_000_000));
    assert_eq!(competition.get_state(), state, "an early announcement moves nothing");
    assert!(needs_event(&competition));
    event_was_created(&mut competition, parameters().event, NOW);
    assert!(!needs_event(&competition));
    let entries = || vec![entry(1), entry(3), entry(5)];
    assert_eq!(check_entry_submissions(&competition, &entries()), Ok(true));
    entries_were_submitted(&mut competition, NOW);
    entries_were_submitted(&mut competition, NOW + HOUR);
    assert_eq!(competition.entries_submitted_at, Some(NOW));
    assert_eq!(check_entry_submissions(&competition, &entries()), Ok(false));
    assert_eq!(
        check_entry_submissions(&competition, &vec![]),
        Err(ProgressError::NoPaidEntries)
    );
    assert_eq!(
        check_entry_submissions(&competition, &vec![entry(1)]),
        Err(ProgressError::EntryCount { entries: 1, allowed: 3 })
    );
    keygen_was_completed(&mut competition, NOW);
    assert_eq!(competition.keymeld_keygen_completed_at, Some(NOW));
    clear_errors(&mut competition);
    assert!(competition.errors.is_empty());
}

#[test]
fn held_invoices_are_settled_once_paid() {
    let (mut held, mut settled) = (ticket(7), ticket(8));
    held.paid_at = Some(NOW);
    settled.paid_at = Some(NOW);
    settled.settled_at = Some(NOW);
    assert_eq!(tickets_to_settle(&vec![ticket(6), held, settled]), vec![7]);
}

#[test]
fn counts_follow_the_domain_statuses() {
    let none = store_counts(&vec![], &vec![], &vec![], &vec![], NOW);
    assert_eq!(none, StoreCounts::default());
    assert!(competition_state_counts(&vec![]).is_empty());

    let stored = |id: u128, reserved, paid, settled, entry_id| {
        let mut ticket = ticket(id);
        ticket.reserved_at = reserved;
        ticket.paid_at = paid;
        ticket.settled_at = settled;
        ticket.entry_id = entry_id;
        ticket
    };
    let ago = |minutes: i128| Some(NOW - minutes * MINUTE);
    let tickets = vec![
        stored(1, None, None, None, None),
        stored(2, ago(1), None, None, None),
        stored(3, ago(30), None, None, None),
        stored(4, ago(2), ago(1), None, None),
        stored(201, ago(9), ago(8), ago(7), Some(101)),
        stored(203, ago(9), ago(8), None, Some(103)),
        stored(205, ago(9), ago(8), None, Some(105)),
    ];
    let mut entries = vec![entry(1), entry(3), entry(5)];
    entries[0].signed_at = Some(NOW);
    let seconds: i64 = 1_800_000_000;
    let payout = |id: u128, entry_id: u128, succeed_at, failed_at| Payout {
        id,
        entry_id,
        event_id: EVENT,
        payout_payment_request: "lnbc".to_string(),
        payout_amount_sats: 1,
        payment_hash: None,
        payment_preimage: None,
        initiated_at: seconds,
        succeed_at,
        failed_at,
    };
    let payouts = vec![
        payout(1, 101, None, Some(seconds)),
        payout(2, 101, Some(seconds), None),
        payout(3, 103, None, None),
    ];
    let job = |id: u128, entry_id: u128, age: i64, attempts: u32| {
        let mut ledger = PayoutLedger::default();
        ledger.create_payout_job(id, entry_id, EVENT, "{}".to_string(), seconds - age).unwrap();
        let mut job: PayoutJob = ledger.jobs.pop().unwrap();
        job.attempts = attempts;
        job
    };
    let mut jobs =
        vec![job(1, 101, 900, 0), job(2, 101, 800, 3), job(3, 103, 600, 0), job(4, 105, 60, 2)];
    jobs[0].completed_at = Some(seconds);
    jobs[1].failed_at = Some(seconds);
    assert_eq!(
        store_counts(&entries, &tickets, &payouts, &jobs, NOW),
        StoreCounts {
            entries_paid: 3,
            entries_signed: 1,
            tickets: vec![
                (TicketStatus::Created, 1),
                (TicketStatus::Reserved, 1),
                (TicketStatus::Expired, 1),
                (TicketStatus::Paid, 1),
                (TicketStatus::Used, 3),
            ],
            payouts_pending: 1,
            payouts_succeeded: 1,
            payouts_failed: 1,
            payout_jobs_open: 2,
            payout_jobs_failed: 1,
            payout_jobs_retrying: 1,
            oldest_open_payout_job_age_secs: 600,
        }
    );

    // Three entries without a full field: the competition still collects entries.
    let mut collecting = Competition::new(competition().event_submission, NOW);
    collecting.event_submission.total_allowed_entries = 5;
    collecting.total_entries = 3;
    let counts = competition_state_counts(&vec![CompetitionStatus::load(collecting)]);
    assert_eq!(counts, vec![(StatusKind::CollectingEntries, 1)]);
}
