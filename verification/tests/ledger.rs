use bitcoin::hashes::sha256;
use bitcoin::secp256k1::{Secp256k1, SecretKey};
use competitions::entering::AddEntry;
use competitions::entries::UserEntry;
use competitions::payout_jobs::{
    store_entry_payout_policy, store_ticket_payout_policy, ticket_payout_policy,
    ticket_payout_public_key, LedgerError, Payout, PayoutLedger,
    WINDOW_REACHED,
};
use competitions::payout_schedule::{retry_delay_seconds, ClaimStatus, BATCH, POLL_INTERVAL};
use dlctix::hashlock;
use dlctix::secp::Scalar;
use lightning_invoice::{Currency, InvoiceBuilder, PaymentSecret};
use std::time::Duration;

const NOW: i64 = 1_800_000_000;
const EVENT: u128 = 1;

fn entry(key_byte: u8) -> UserEntry {
    AddEntry {
        id: key_byte as u128,
        ticket_id: 1_000 + key_byte as u128,
        event_id: EVENT,
        ephemeral_pubkey: Scalar::from_slice(&[key_byte; 32]).unwrap().base_point_mul().to_string(),
        payout_hash: hex::encode(hashlock::sha256(&[key_byte + 1; 32])),
        expected_observations: vec![],
        encrypted_keymeld_private_key: None,
        keymeld_auth_pubkey: None,
        keymeld_registration_context: None,
    }
    .into_user_entry("owner".to_string())
}

fn invoice(proof: [u8; 32]) -> String {
    let hash = <sha256::Hash as bitcoin::hashes::Hash>::hash(&proof);
    InvoiceBuilder::new(Currency::Regtest)
        .description("automatic payout regression".into())
        .payment_hash(hash)
        .payment_secret(PaymentSecret([8; 32]))
        .amount_milli_satoshis(10_000)
        .duration_since_epoch(Duration::from_secs(1_800_000_000))
        .min_final_cltv_expiry_delta(18)
        .build_signed(|hash| {
            Secp256k1::new().sign_ecdsa_recoverable(hash, &SecretKey::from_slice(&[9; 32]).unwrap())
        })
        .unwrap()
        .to_string()
}

fn prepared(proof: [u8; 32]) -> String {
    format!("{{\"invoice\":\"{}\",\"state_receipt\":\"sealed-claim\"}}", invoice(proof))
}

/// A ledger whose claims and payments have ids in the order they are made.
struct Fixture {
    ledger: PayoutLedger,
    next: u128,
}

impl Fixture {
    fn new() -> Self {
        Fixture { ledger: PayoutLedger::default(), next: 10_000 }
    }

    fn id(&mut self) -> u128 {
        self.next += 1;
        self.next
    }

    fn create(&mut self, entry_id: u128, request: &str) -> Result<u128, LedgerError> {
        let id = self.id();
        self.ledger.create_payout_job(id, entry_id, EVENT, request.to_string(), NOW)
    }

    fn fallback(&mut self, id: u128, entry_id: u128, request: &str) -> Result<u128, LedgerError> {
        self.ledger.queue_invoice_fallback(id, entry_id, EVENT, request.to_string(), NOW)
    }

    fn store(&mut self, job: u128, proof: [u8; 32], receipt: String) -> Result<u128, LedgerError> {
        let id = self.id();
        self.ledger.store_prepared_payout(job, id, invoice(proof), 10, receipt, NOW)
    }

    fn prepare(&mut self, job: u128, proof: [u8; 32]) -> u128 {
        self.store(job, proof, prepared(proof)).unwrap()
    }

    fn payout(&mut self, id: u128) -> &mut Payout {
        let at = self.ledger.find_payout(id).unwrap();
        &mut self.ledger.payouts[at]
    }

    fn succeeded(&mut self, id: u128, proof: Option<[u8; 32]>) {
        let payout = self.payout(id);
        payout.succeed_at = Some(NOW);
        payout.payment_preimage = proof.map(hex::encode);
    }

    fn due(&self) -> Vec<u128> {
        let due = self.ledger.due_payout_jobs(NOW);
        due.into_iter().map(|at| self.ledger.jobs[at].id).collect()
    }
}

#[test]
fn concurrent_workers_persist_one_intent_before_preparing_an_invoice() {
    let mut f = Fixture::new();
    let a = f.create(1, "\"Automatic\"");
    let b = f.create(1, "\"Automatic\"");
    assert!(a.is_ok());
    assert_eq!(b, Err(LedgerError::ClaimExists));
    assert_eq!(f.ledger.jobs.len(), 1);
    assert!(f.ledger.payouts.is_empty());
    assert_eq!(f.due(), vec![a.unwrap()]);
    assert!(f.ledger.jobs[0].prepared_json.is_none());
    assert!(f.ledger.jobs[0].payout_id.is_none());
    assert!(f.ledger.has_live_payout_job(1));
    assert!(!f.ledger.has_live_payout_job(2));
}

#[test]
fn pending_payment_batch_rotates_before_new_claims_and_paid_recovery() {
    let mut f = Fixture::new();
    let mut stalled = Vec::new();
    for index in 1..=100u8 {
        let job = f.create(index as u128, "automatic").unwrap();
        f.prepare(job, [index; 32]);
        stalled.push(job);
    }
    let new_claim = f.create(101, "automatic").unwrap();
    let paid_claim = f.create(102, "automatic").unwrap();
    let paid_outbox = f.prepare(paid_claim, [102; 32]);
    f.succeeded(paid_outbox, Some([102; 32]));
    for job in f.ledger.jobs.iter_mut() {
        job.retry_at = 0;
    }

    let first_batch = f.due();
    assert_eq!(first_batch.len(), BATCH);
    assert!(first_batch.iter().all(|job| stalled.contains(job)));
    for job in first_batch {
        f.ledger.schedule_payout_poll(job, NOW);
    }
    assert_eq!(f.due(), vec![new_claim, paid_claim]);
    assert!(f.ledger.jobs[..100].iter().all(|job| job.retry_at == NOW + POLL_INTERVAL));

    // Even if processing one batch takes longer than the polling interval,
    // newly due polls must remain behind the work that has never been polled.
    for job in f.ledger.jobs.iter_mut() {
        if job.retry_at > 0 {
            job.retry_at = NOW - 1;
        }
    }
    let next_batch = f.due();
    assert_eq!(next_batch.len(), 100);
    assert_eq!(next_batch[0], new_claim);
    assert_eq!(next_batch[1], paid_claim);
    assert!(f.ledger.jobs.iter().all(|job| job.attempts == 0));
}

#[test]
fn prepared_invoice_retry_reuses_outbox_and_rejects_changed_receipt() {
    let mut f = Fixture::new();
    let job = f.create(1, "automatic").unwrap();
    let first = f.prepare(job, [7; 32]);
    assert_eq!(first, f.prepare(job, [7; 32]));
    assert_eq!(
        f.store(job, [7; 32], "changed-receipt".to_string()),
        Err(LedgerError::ClaimChanged)
    );
    assert_eq!(f.ledger.payouts.len(), 1);
    assert_eq!(
        f.payout(first).payment_hash,
        Some(hex::encode(hashlock::sha256(&[7; 32])))
    );
    assert_eq!(f.payout(first).payout_amount_sats, 10);
    assert_eq!(f.ledger.jobs[0].payout_id, Some(first));
    assert_eq!(f.ledger.jobs[0].prepared_json, Some(prepared([7; 32])));
    assert_eq!(f.store(77, [7; 32], prepared([7; 32])), Err(LedgerError::NoSuchClaim));
    let id = f.id();
    assert_eq!(
        f.ledger.store_prepared_payout(job, id, "nope".to_string(), 10, "x".to_string(), NOW),
        Err(LedgerError::InvalidInvoice)
    );
}

#[test]
fn one_payment_hash_cannot_pay_two_entries_and_rejection_rolls_back_outbox() {
    let mut f = Fixture::new();
    let first = f.create(1, "automatic").unwrap();
    let second = f.create(3, "automatic").unwrap();
    f.prepare(first, [7; 32]);
    assert_eq!(f.store(second, [7; 32], prepared([7; 32])), Err(LedgerError::HashUsed));
    assert_eq!(f.ledger.payouts.len(), 1);
    let rejected = &f.ledger.jobs[f.ledger.find_job(second).unwrap()];
    assert!(rejected.payout_id.is_none());
    assert!(rejected.prepared_json.is_none());
}

#[test]
fn entry_secrets_require_matching_payment_proof_and_matching_escrow_material() {
    let mut f = Fixture::new();
    let mut entry = entry(1);
    let job = f.create(1, "automatic").unwrap();
    let payout = f.prepare(job, [7; 32]);
    let complete = |f: &mut Fixture, entry: &mut UserEntry, key: u8, preimage: u8| {
        f.ledger.complete_payout_job(
            job,
            entry,
            hex::encode([key; 32]),
            hex::encode([preimage; 32]),
            NOW,
        )
    };
    assert!(complete(&mut f, &mut entry, 1, 2).is_err());
    // A success notification without the proof is not enough to release secrets.
    f.succeeded(payout, None);
    assert!(complete(&mut f, &mut entry, 1, 2).is_err());
    f.succeeded(payout, Some([7; 32]));
    assert_eq!(complete(&mut f, &mut entry, 3, 2), Err(LedgerError::WrongKey));
    assert_eq!(complete(&mut f, &mut entry, 1, 4), Err(LedgerError::WrongPreimage));
    assert_eq!((&entry.ephemeral_privatekey, &entry.payout_preimage), (&None, &None));
    assert_eq!(complete(&mut f, &mut entry, 1, 2), Ok(()));
    assert_eq!(complete(&mut f, &mut entry, 1, 2), Ok(()));
    assert_eq!(entry.ephemeral_privatekey, Some(hex::encode([1; 32])));
    assert_eq!(entry.payout_preimage, Some(hex::encode([2; 32])));
    assert!(f.due().is_empty());
    assert_eq!(f.ledger.payout_job_status(1).unwrap().as_str(), "Paid");
}

#[test]
fn released_secrets_have_to_be_readable() {
    let mut f = Fixture::new();
    let mut entry = entry(1);
    let job = f.create(1, "automatic").unwrap();
    let payout = f.prepare(job, [7; 32]);
    f.succeeded(payout, Some([7; 32]));
    let refused = |f: &mut Fixture, entry: &mut UserEntry, key: String, preimage: String| {
        f.ledger.complete_payout_job(job, entry, key, preimage, NOW).unwrap_err()
    };
    let (key, preimage) = (hex::encode([1; 32]), hex::encode([2; 32]));
    assert_eq!(
        refused(&mut f, &mut entry, "nope".to_string(), preimage.clone()),
        LedgerError::InvalidKey
    );
    assert_eq!(
        refused(&mut f, &mut entry, key.clone(), "nope".to_string()),
        LedgerError::InvalidPreimage
    );
    entry.payout_preimage = Some(hex::encode([9; 32]));
    assert_eq!(
        refused(&mut f, &mut entry, key.clone(), preimage.clone()),
        LedgerError::SecretsChanged
    );
    entry.payout_preimage = None;
    entry.ephemeral_pubkey = "nope".to_string();
    assert_eq!(refused(&mut f, &mut entry, key, preimage), LedgerError::InvalidStoredKey);
}

#[test]
fn restart_after_payment_recovers_same_claim_and_proof_without_new_payment() {
    let mut f = Fixture::new();
    let job = f.create(1, "automatic").unwrap();
    let payout = f.prepare(job, [7; 32]);
    f.succeeded(payout, Some([7; 32]));
    assert_eq!(f.due(), vec![job]);
    assert_eq!(f.create(1, "replacement"), Err(LedgerError::ClaimExists));
    assert!(f.ledger.has_live_payment(1));
    let mut entry = entry(1);
    f.ledger
        .complete_payout_job(job, &mut entry, hex::encode([1; 32]), hex::encode([2; 32]), NOW)
        .unwrap();
    assert_eq!(f.ledger.payouts.len(), 1);
    assert!(f.due().is_empty());
}

#[test]
fn invoice_fallback_replaces_only_unpaid_intent_and_is_idempotent() {
    let mut f = Fixture::new();
    let original = f.create(1, "automatic").unwrap();
    let fallback = f.id();
    assert_eq!(f.fallback(fallback, 1, "signed-invoice"), Ok(fallback));
    assert_eq!(f.fallback(fallback, 1, "signed-invoice"), Ok(fallback));
    assert_eq!(f.fallback(fallback, 1, "different-invoice"), Err(LedgerError::ClaimIdUsed));
    assert!(f.store(original, [7; 32], prepared([7; 32])).is_err());
    let payout = f.prepare(fallback, [7; 32]);
    let other = f.id();
    assert!(f.fallback(other, 1, "replacement").is_err());
    // A retry/timeout is ambiguous: it must not release the entry for a new payment.
    f.ledger.retry_payout_job(fallback, 0, "LND unavailable".to_string(), NOW);
    f.ledger.fail_payout_job(fallback, NOW);
    assert_eq!(f.fallback(other, 1, "replacement"), Err(LedgerError::LivePayment));
    f.payout(payout).failed_at = Some(NOW);
    assert_eq!(f.fallback(other, 1, "replacement"), Ok(other));
    assert_eq!(f.due(), vec![other]);
}

#[test]
fn entry_authorization_is_immutable_but_unpaid_ticket_recycling_can_rotate_it() {
    let mut entry_policy = None;
    let alice = || "alice@example.org".to_string();
    assert_eq!(store_entry_payout_policy(&mut entry_policy, alice()), Ok(()));
    assert_eq!(store_entry_payout_policy(&mut entry_policy, alice()), Ok(()));
    assert_eq!(
        store_entry_payout_policy(&mut entry_policy, "mallory@example.org".to_string()),
        Err(LedgerError::PolicyFixed)
    );
    assert_eq!(entry_policy, Some(alice()));
    let mut ticket_policy = None;
    let mut store = |hash: &str, key: &str, policy: &str| {
        let fixed = store_ticket_payout_policy(
            &mut ticket_policy,
            hash.to_string(),
            key.to_string(),
            policy.to_string(),
        );
        let kept = ticket_policy.as_ref().unwrap();
        (fixed, kept.ticket_hash.clone(), kept.policy_json.clone())
    };
    assert_eq!(
        store("old-hash", "alice-key", "alice-policy"),
        (Ok(()), "old-hash".to_string(), "alice-policy".to_string())
    );
    assert_eq!(
        store("old-hash", "mallory-key", "mallory-policy"),
        (Err(LedgerError::PolicyFixed), "old-hash".to_string(), "alice-policy".to_string())
    );
    assert_eq!(
        store("new-hash", "bob-key", "bob-policy"),
        (Ok(()), "new-hash".to_string(), "bob-policy".to_string())
    );
    let (old, new) = ("old-hash".to_string(), "new-hash".to_string());
    assert_eq!(ticket_payout_policy(&ticket_policy, &new), Some(&"bob-policy".to_string()));
    assert_eq!(ticket_payout_public_key(&ticket_policy, &new), Some(&"bob-key".to_string()));
    assert_eq!(ticket_payout_policy(&ticket_policy, &old), None);
    assert_eq!(ticket_payout_public_key(&ticket_policy, &old), None);
    assert_eq!(ticket_payout_policy(&None, &new), None);
    assert_eq!(ticket_payout_public_key(&None, &new), None);
}

#[test]
fn closing_payout_window_stops_new_claims_and_sends_but_keeps_paid_release_recoverable() {
    let mut f = Fixture::new();
    f.ledger.enable_automatic_payouts(EVENT);
    assert!(f.ledger.has_automatic_payouts(EVENT));
    assert!(!f.ledger.has_automatic_payouts(2));
    let paid_job = f.create(1, "automatic").unwrap();
    let unprepared_job = f.create(3, "automatic").unwrap();
    let payout = f.prepare(paid_job, [7; 32]);
    assert!(f.ledger.payout_send_allowed(payout));
    f.ledger.close_payout_window(EVENT, NOW);
    assert!(f.ledger.payout_window_is_closed(EVENT));
    assert!(!f.ledger.payout_send_allowed(payout));
    assert_eq!(f.create(5, "automatic"), Err(LedgerError::WindowClosed));
    let id = f.id();
    assert_eq!(f.fallback(id, 5, "signed-invoice"), Err(LedgerError::WindowClosed));
    assert!(f.store(unprepared_job, [8; 32], prepared([8; 32])).is_err());
    let unprepared = &f.ledger.jobs[f.ledger.find_job(unprepared_job).unwrap()];
    assert_eq!(unprepared.failed_at, Some(NOW));
    assert_eq!(unprepared.last_error.as_deref(), Some(WINDOW_REACHED));
    // An already dispatched payment can settle after the window closes.
    f.succeeded(payout, Some([7; 32]));
    assert!(f.ledger.has_unsettled_payout_jobs(EVENT));
    let mut entry = entry(1);
    f.ledger
        .complete_payout_job(paid_job, &mut entry, hex::encode([1; 32]), hex::encode([2; 32]), NOW)
        .unwrap();
    assert!(!f.ledger.has_unsettled_payout_jobs(EVENT));
}

#[test]
fn retries_slow_down_to_a_limit() {
    assert_eq!(retry_delay_seconds(0), 5);
    assert_eq!(retry_delay_seconds(1), 10);
    assert_eq!(retry_delay_seconds(5), 160);
    assert_eq!(retry_delay_seconds(6), 300);
    assert_eq!(retry_delay_seconds(u32::MAX), 300);
    let mut f = Fixture::new();
    let job = f.create(1, "automatic").unwrap();
    f.ledger.retry_payout_job(job, 1, "LND unavailable".to_string(), NOW);
    let retried = &f.ledger.jobs[0];
    assert_eq!((retried.attempts, retried.retry_at), (1, NOW + 10));
    assert_eq!(retried.last_error.as_deref(), Some("LND unavailable"));
    assert!(f.due().is_empty());
    assert_eq!(f.ledger.payout_job_status(1), Some(ClaimStatus::Retrying));
}

#[test]
fn a_claim_tells_how_it_stands() {
    let mut f = Fixture::new();
    assert_eq!(f.ledger.payout_job_status(1), None);
    let job = f.create(1, "automatic").unwrap();
    assert_eq!(f.ledger.payout_job_status(1), Some(ClaimStatus::Queued));
    let payout = f.prepare(job, [7; 32]);
    assert_eq!(f.ledger.payout_job_status(1), Some(ClaimStatus::InProgress));
    f.succeeded(payout, Some([7; 32]));
    assert_eq!(f.ledger.payout_job_status(1), Some(ClaimStatus::Completing));
}

#[test]
fn older_payments_are_indexed_by_their_hash_once() {
    let mut f = Fixture::new();
    for entry_id in [1u128, 2] {
        f.ledger.payouts.push(Payout {
            id: entry_id,
            entry_id,
            event_id: EVENT,
            payout_payment_request: invoice([7; 32]),
            payout_amount_sats: 10,
            payment_hash: None,
            payment_preimage: None,
            initiated_at: NOW,
            succeed_at: None,
            failed_at: None,
        });
    }
    f.ledger.index_existing_payment_hashes();
    assert_eq!(
        f.ledger.payouts[0].payment_hash,
        Some(hex::encode(hashlock::sha256(&[7; 32])))
    );
    assert_eq!(f.ledger.payouts[1].payment_hash, None);
}
