use bitcoin::hashes::sha256;
use bitcoin::secp256k1::{PublicKey, Secp256k1, SecretKey};
use competitions::automatic::{
    eligible_payout, expected_authorization, payout_authorization_info, submit_invoice_fallback,
    tell_status, validate_entry_payout_policy, validate_ticket_payout_choice, AgreedEntry,
    PayoutAuthorizationInfo, PayoutRegistrationRequest, PayoutTermsQuote, PolicyError,
};
use competitions::claims::{
    claim_was_prepared, is_settling_on_chain, owed_sats, process_payout_job, proof_was_looked_up,
    release_claim, should_claim_for, should_queue_claims, BoundParticipant, ClaimError, ClaimStep,
    PaymentStatus, PayoutPolicy, PreparedClaim,
};
use competitions::competition::{Competition, CreateEvent};
use competitions::contract::{
    ContractParameters, EventAnnouncement, OutPoint, OutcomePayouts, Player, SignedContract,
};
use competitions::entering::AddEntry;
use competitions::entries::{RegistrationContext, Ticket, UserEntry};
use competitions::lifecycle::Coordinator;
use competitions::payout_jobs::{Payout, PayoutJob, PayoutLedger};
use competitions::payout_schedule::ClaimStatus;
use competitions::settlement::SettlementError;
use dlctix::hashlock;
use dlctix::secp::Scalar;
use lightning_invoice::{Currency, InvoiceBuilder, PaymentSecret};
use std::collections::BTreeMap;
use std::time::Duration;

const NOW: i128 = 1_800_000_000_000_000_000;
const EVENT: u128 = 1;

fn point(byte: u8) -> Vec<u8> {
    Scalar::from_slice(&[byte; 32]).unwrap().base_point_mul().serialize().to_vec()
}

fn coordinator(keymeld_enabled: bool) -> Coordinator {
    Coordinator {
        escrow_enabled: false,
        keymeld_enabled,
        required_confirmations: 1,
        invoice_settlement_confirmations: 1,
        relative_locktime_block_delta: 144,
        automatic_payouts: false,
        automatic_payout_max_fee_rate: 0,
        tolerated_errors: 3,
        kept_settlement_errors: 5,
    }
}

fn event(places: usize, delta: Option<u16>) -> CreateEvent {
    CreateEvent {
        id: EVENT,
        signing_date: NOW,
        start_observation_date: NOW,
        end_observation_date: NOW,
        locations: vec![],
        number_of_values_per_entry: 3,
        number_of_places_win: places,
        total_allowed_entries: 2,
        entry_fee: 50_000,
        coordinator_fee_percentage: 0,
        total_competition_pool: 100_000,
        relative_locktime_block_delta: delta,
        unlisted: false,
    }
}

fn parameters() -> ContractParameters {
    ContractParameters {
        market_maker: point(9),
        players: [1u8, 3]
            .into_iter()
            .map(|key| Player {
                pubkey: point(key),
                ticket_hash: vec![key; 32],
                payout_hash: vec![key; 32],
            })
            .collect(),
        event: EventAnnouncement { locking_points: vec![point(10)], expiry: None },
        outcome_payouts: OutcomePayouts {
            attestations: BTreeMap::from([(0, BTreeMap::from([(0, 60)]))]),
            expiry: None,
        },
        fee_rate: 250,
        funding_value: 100_000,
        relative_locktime_block_delta: 72,
    }
}

/// Attested with the key 10: the player with the key 1 wins 60 of 100, the one with 3 nothing.
fn competition() -> Competition {
    let mut competition = Competition::new(event(1, Some(72)), NOW);
    competition.event_announcement = Some(parameters().event);
    competition.attestation = Some(vec![10; 32]);
    competition.contract_parameters = Some(parameters());
    competition.funding_outpoint = Some(OutPoint { txid: vec![5; 32], vout: 0 });
    competition.signed_contract = Some(SignedContract {
        params: parameters(),
        funding_outpoint: OutPoint { txid: vec![5; 32], vout: 0 },
        encoded: String::new(),
    });
    competition.funding_confirmed_at = Some(NOW);
    competition.outcome_broadcasted_at = Some(NOW);
    competition
}

fn add_entry(key: u8) -> AddEntry {
    AddEntry {
        id: 100 + key as u128,
        ticket_id: 200 + key as u128,
        event_id: EVENT,
        ephemeral_pubkey: hex::encode(point(key)),
        payout_hash: hex::encode([key; 32]),
        expected_observations: vec![],
        encrypted_keymeld_private_key: None,
        keymeld_auth_pubkey: None,
        keymeld_registration_context: Some(RegistrationContext {
            keygen_session_id: "session".to_string(),
            user_id: 200 + key as u128,
            manifest_hash: hex::encode([6; 32]),
            enclave_id: 1,
            enclave_key_epoch: 1,
            public_key: hex::encode(point(key)),
            auth_pubkey: hex::encode(point(key + 20)),
            require_signing_approval: false,
        }),
    }
}

fn entry(key: u8) -> UserEntry {
    add_entry(key).into_user_entry("owner".to_string())
}

fn policy() -> PayoutPolicy {
    PayoutPolicy {
        automatic_lightning_address: Some("winner@example.org".to_string()),
        allow_invoice_fallback: true,
        release_entry_key_after_payment: true,
    }
}

fn invoice(proof: [u8; 32]) -> String {
    InvoiceBuilder::new(Currency::Regtest)
        .description("automatic payout".into())
        .payment_hash(<sha256::Hash as bitcoin::hashes::Hash>::hash(&proof))
        .payment_secret(PaymentSecret([8; 32]))
        .amount_milli_satoshis(60_000_000)
        .duration_since_epoch(Duration::from_secs(1_800_000_000))
        .min_final_cltv_expiry_delta(18)
        .build_signed(|hash| {
            Secp256k1::new().sign_ecdsa_recoverable(hash, &SecretKey::from_slice(&[9; 32]).unwrap())
        })
        .unwrap()
        .to_string()
}

#[test]
fn malformed_payout_choice_is_rejected_before_reserving_a_ticket() {
    let key: PublicKey = SecretKey::from_slice(&[3; 32]).unwrap().public_key(&Secp256k1::new());
    let choice = || PayoutRegistrationRequest {
        entry_id: uuid::Uuid::now_v7().as_u128(),
        payout_hash: hex::encode([4; 32]),
        lightning_address: Some("winner@example.org".into()),
        allow_invoice_fallback: true,
        release_entry_key_after_payment: true,
    };
    let compressed = key.serialize().to_vec();
    assert_eq!(validate_ticket_payout_choice(&compressed, &choice(), true), Ok(()));
    let refused = |address_is_valid: bool, mutate: fn(&mut PayoutRegistrationRequest)| {
        let mut invalid = choice();
        mutate(&mut invalid);
        validate_ticket_payout_choice(&compressed, &invalid, address_is_valid).unwrap_err()
    };
    assert_eq!(refused(true, |choice| choice.entry_id = 0), PolicyError::InvalidEntry);
    assert_eq!(
        refused(true, |choice| choice.payout_hash = "not-a-hash".into()),
        PolicyError::InvalidPayoutHash
    );
    assert_eq!(
        refused(false, |choice| choice.lightning_address = Some("invalid".into())),
        PolicyError::InvalidAddress
    );
    assert_eq!(
        refused(true, |choice| choice.release_entry_key_after_payment = false),
        PolicyError::NotAuthorized
    );
    assert_eq!(
        refused(true, |choice| {
            choice.lightning_address = None;
            choice.allow_invoice_fallback = false;
        }),
        PolicyError::NotAuthorized
    );
    let uncompressed = key.serialize_uncompressed().to_vec();
    assert_eq!(
        validate_ticket_payout_choice(&uncompressed, &choice(), true),
        Err(PolicyError::InvalidEntry)
    );
}

#[test]
fn automatic_payouts_need_keymeld_and_a_fee_ceiling() {
    let set = coordinator(true).with_automatic_payouts(true, 20).unwrap();
    assert!(set.automatic_payouts);
    assert_eq!(set.automatic_payout_max_fee_rate, 5_000);
    assert_eq!(
        set.payout_terms_quote(&Competition::new(event(1, Some(72)), NOW), true, false),
        PayoutTermsQuote {
            enabled: true,
            relative_locktime_block_delta: 72,
            max_fee_rate_sat_vb: 20,
            arkade: false,
        }
    );
    assert_eq!(
        set.payout_terms_quote(&Competition::new(event(1, None), NOW), false, true)
            .relative_locktime_block_delta,
        144
    );
    let refused = |keymeld: bool, enabled: bool, rate: u64| {
        coordinator(keymeld).with_automatic_payouts(enabled, rate).err().unwrap()
    };
    assert_eq!(refused(false, true, 20), PolicyError::NoKeymeld);
    assert_eq!(refused(true, true, 0), PolicyError::InvalidFeeCeiling);
    assert_eq!(refused(true, true, u64::MAX), PolicyError::InvalidFeeCeiling);
    let required = |keymeld: bool, payout: bool, lnurl: bool, needs_lnurl: bool| {
        coordinator(keymeld).require_payout_capabilities(payout, lnurl, needs_lnurl)
    };
    assert_eq!(required(true, true, false, false), Ok(()));
    assert_eq!(required(false, true, true, true), Err(PolicyError::NoKeymeld));
    assert_eq!(required(true, false, true, false), Err(PolicyError::Unsupported));
    assert_eq!(required(true, true, false, true), Err(PolicyError::Unsupported));
}

#[test]
fn a_player_agrees_to_the_contract_before_paying() {
    let coordinator = coordinator(true).with_automatic_payouts(true, 20).unwrap();
    let competition = competition();
    let mut ticket = Ticket {
        id: 203,
        competition_id: EVENT,
        entry_id: None,
        encrypted_preimage: String::new(),
        hash: hex::encode([7; 32]),
        payment_request: None,
        invoice_expires_at: None,
        expiry: NOW,
        ephemeral_pubkey: None,
        reserved_by: None,
        reserved_at: None,
        paid_at: None,
        settled_at: None,
        escrow_transaction: None,
    };
    let mut choice = PayoutRegistrationRequest {
        entry_id: 103,
        payout_hash: hex::encode([4; 32]),
        lightning_address: None,
        allow_invoice_fallback: true,
        release_entry_key_after_payment: true,
    };
    let tickets = vec![201, 203];
    let terms = coordinator
        .prepare_ticket_payout_policy(&competition, &ticket, &tickets, &choice)
        .unwrap();
    assert_eq!((terms.competition_id, terms.entry_id), (EVENT, 103));
    assert_eq!((terms.player_index, terms.player_count), (1, 2));
    assert_eq!((terms.ticket_hash, terms.payout_hash), (vec![7; 32], vec![4; 32]));
    assert_eq!(terms.outcome_payouts.attestations[&1], BTreeMap::from([(1, 100)]));
    assert_eq!(terms.funding_value, 100_000);
    assert_eq!((terms.relative_locktime_block_delta, terms.max_fee_rate), (72, 5_000));

    let refused = |competition: &Competition,
                   ticket: &Ticket,
                   tickets: &Vec<u128>,
                   choice: &PayoutRegistrationRequest| {
        coordinator
            .prepare_ticket_payout_policy(competition, ticket, tickets, choice)
            .unwrap_err()
    };
    assert_eq!(
        refused(&competition, &ticket, &vec![201], &choice),
        PolicyError::TicketAbsent
    );
    let unannounced = Competition::new(event(1, None), NOW);
    assert_eq!(
        refused(&unannounced, &ticket, &tickets, &choice),
        PolicyError::NoAnnouncement
    );
    let mut placeless = Competition::new(event(3, None), NOW);
    placeless.event_announcement = Some(parameters().event);
    assert_eq!(
        refused(&placeless, &ticket, &tickets, &choice),
        PolicyError::InvalidCounts
    );
    choice.payout_hash = "nope".to_string();
    assert_eq!(
        refused(&competition, &ticket, &tickets, &choice),
        PolicyError::InvalidPayoutHash
    );
    ticket.hash = "nope".to_string();
    assert_eq!(
        refused(&competition, &ticket, &tickets, &choice),
        PolicyError::InvalidTicketHash
    );
}

#[test]
fn an_entry_is_the_one_its_player_agreed_to() {
    let agreed = || AgreedEntry {
        entry_id: 101,
        competition_id: EVENT,
        payout_hash: vec![1; 32],
        entry_pubkey: hex::encode(point(1)),
    };
    let checked = |automatic: bool, agreed: Option<AgreedEntry>| {
        validate_entry_payout_policy(&add_entry(1), automatic, &agreed)
    };
    assert_eq!(checked(false, None), Ok(false));
    assert_eq!(checked(true, Some(agreed())), Ok(true));
    assert_eq!(checked(true, None), Err(PolicyError::NoPolicy));
    let mut other = agreed();
    other.entry_pubkey = hex::encode(point(2));
    assert_eq!(checked(true, Some(other)), Err(PolicyError::KeyDiffers));
    let mut other = agreed();
    other.payout_hash = vec![2; 32];
    assert_eq!(checked(true, Some(other)), Err(PolicyError::EntryDiffers));
    let mut other = agreed();
    other.entry_id = 1;
    assert_eq!(checked(true, Some(other)), Err(PolicyError::EntryDiffers));
}

fn info(competition: &Competition, entry: Option<UserEntry>) -> Result<PayoutAuthorizationInfo, PolicyError> {
    payout_authorization_info(
        entry,
        &"owner".to_string(),
        competition,
        Some(policy()),
        false,
        None,
        Some("digest".to_string()),
    )
}

#[test]
fn what_is_shown_is_what_is_signed_for() {
    let info = info(&competition(), Some(entry(1))).unwrap();
    assert_eq!(info.keygen_session_id, "session");
    assert_eq!((info.user_id, info.competition_id, info.entry_id), (201, EVENT, 101));
    assert_eq!(info.contract_digest, "digest");
    assert_eq!(info.amount_msat, 60_000_000);
    assert_eq!(info.automatic_lightning_address.as_deref(), Some("winner@example.org"));
    assert!(info.allow_invoice_fallback);
    assert_eq!(info.status, "Awaiting payout");
    let shown = eligible_payout(Some(&competition()), &entry(1), Some(policy()), false, None);
    let shown = shown.unwrap();
    assert_eq!(shown.amount_sats * 1000, info.amount_msat);
    assert_eq!(shown.status, "Queued automatically");
    assert!(shown.escrow_enabled && shown.allow_invoice_fallback);
    let authorization = expected_authorization(&info, 5, 77, "invoice".to_string());
    assert_eq!(authorization.amount_msat, 60_000_000);
    assert_eq!((authorization.claim_id, authorization.expires_at), (5, 77));
    assert_eq!(authorization.invoice_digest, "invoice");
}

#[test]
fn payouts_are_shown_to_winners_only() {
    let shown = |competition: &Competition, entry: &UserEntry, policy: Option<PayoutPolicy>| {
        eligible_payout(Some(competition), entry, policy, false, None)
    };
    let legacy = shown(&competition(), &entry(1), None).unwrap();
    assert_eq!(legacy.status, "Awaiting invoice");
    assert!(!legacy.escrow_enabled && legacy.allow_invoice_fallback);
    assert!(shown(&competition(), &entry(3), Some(policy())).is_none());
    assert!(eligible_payout(None, &entry(1), None, false, None).is_none());
    let mut paid = entry(1);
    paid.paid_out_at = Some(NOW);
    assert!(shown(&competition(), &paid, None).is_none());
    assert!(!shown(&competition(), &paid, Some(policy())).unwrap().allow_invoice_fallback);
    let mut unpublished = competition();
    unpublished.outcome_broadcasted_at = None;
    assert!(shown(&unpublished, &entry(1), None).is_none());
    let mut closed = competition();
    closed.delta_broadcasted_at = Some(NOW);
    assert_eq!(shown(&closed, &entry(1), None).unwrap().status, "On-chain settlement");
    assert_eq!(tell_status(Some(ClaimStatus::Completing), true, "x"), "Paid; completing settlement");
    assert_eq!(tell_status(Some(ClaimStatus::InProgress), true, "x"), "Payment in progress");
    assert_eq!(tell_status(Some(ClaimStatus::Retrying), false, "x"), "Retrying automatically");
    assert_eq!(tell_status(None, false, "x"), "x");
}

#[test]
fn a_payout_is_authorized_by_its_owner_alone() {
    let refused = |competition: &Competition, entry: Option<UserEntry>| {
        info(competition, entry).unwrap_err()
    };
    assert_eq!(refused(&competition(), None), PolicyError::EntryNotFound);
    let mut other = entry(1);
    other.pubkey = "mallory".to_string();
    assert_eq!(refused(&competition(), Some(other)), PolicyError::EntryNotFound);
    assert_eq!(
        refused(&competition(), Some(entry(3))),
        PolicyError::NotOwed(ClaimError::NotAWinner)
    );
    let mut contextless = entry(1);
    contextless.keymeld_registration_context = None;
    assert_eq!(refused(&competition(), Some(contextless)), PolicyError::NoContext);
    let mut unfunded = competition();
    unfunded.funding_outpoint = None;
    assert_eq!(refused(&unfunded, Some(entry(1))), PolicyError::NoFunding);
    let mut uncontracted = competition();
    uncontracted.contract_parameters = None;
    assert_eq!(refused(&uncontracted, Some(entry(1))), PolicyError::NoContract);
    let told = |policy: Option<PayoutPolicy>, digest: Option<String>| {
        payout_authorization_info(
            Some(entry(1)),
            &"owner".to_string(),
            &competition(),
            policy,
            false,
            None,
            digest,
        )
        .unwrap_err()
    };
    assert_eq!(told(None, Some("digest".to_string())), PolicyError::LegacyEntry);
    assert_eq!(told(Some(policy()), None), PolicyError::NoDigest);
}

#[test]
fn an_invoice_fallback_is_authorized_for_minutes() {
    let competition = competition();
    let mut info = info(&competition, Some(entry(1))).unwrap();
    let submitted = |info: &PayoutAuthorizationInfo, owed: bool, expires_at: u64, entry, signed| {
        submit_invoice_fallback(info, &competition, owed, expires_at, 1_000, entry, signed)
    };
    assert_eq!(submitted(&info, true, 1_600, true, true), Ok(()));
    assert_eq!(
        submitted(&info, true, 1_601, true, true),
        Err(PolicyError::AuthorizedTooLong)
    );
    assert_eq!(submitted(&info, false, 1_600, true, true), Err(PolicyError::InvalidInvoice));
    assert_eq!(submitted(&info, true, 1_600, false, true), Err(PolicyError::EntryNotFound));
    assert_eq!(submitted(&info, true, 1_600, true, false), Err(PolicyError::NotSigned));
    let mut closed = self::competition();
    closed.completed_at = Some(NOW);
    assert_eq!(
        submit_invoice_fallback(&info, &closed, true, 1_600, 1_000, true, true),
        Err(PolicyError::OnChain)
    );
    info.allow_invoice_fallback = false;
    assert_eq!(submitted(&info, true, 1_600, true, true), Err(PolicyError::NoFallback));
}

fn job() -> PayoutJob {
    let mut ledger = PayoutLedger::default();
    ledger.create_payout_job(7, 101, EVENT, "automatic".to_string(), 5).unwrap();
    ledger.jobs.pop().unwrap()
}

fn payout() -> Payout {
    Payout {
        id: 8,
        entry_id: 101,
        event_id: EVENT,
        payout_payment_request: invoice([7; 32]),
        payout_amount_sats: 60_000,
        payment_hash: None,
        payment_preimage: None,
        initiated_at: 5,
        succeed_at: None,
        failed_at: None,
    }
}

fn bindings() -> Option<Vec<BoundParticipant>> {
    Some(vec![
        BoundParticipant { user_id: 203, enclave_id: 1 },
        BoundParticipant { user_id: 201, enclave_id: 1 },
    ])
}

fn step(competition: &Competition, entry: UserEntry) -> Result<ClaimStep, ClaimError> {
    process_payout_job(&job(), &Some(entry), competition, true, &None, &bindings())
}

#[test]
fn finalized_winner_is_prepared_without_browser_and_loser_has_no_job() {
    assert!(should_queue_claims(&competition(), false, true));
    assert!(!should_queue_claims(&competition(), true, true));
    assert!(!should_queue_claims(&competition(), false, false));
    let claims = |entry: &UserEntry, live: bool, policy: Option<PayoutPolicy>| {
        should_claim_for(&competition(), entry, live, &policy)
    };
    assert_eq!(claims(&entry(1), false, Some(policy())), Ok(true));
    assert_eq!(claims(&entry(1), true, Some(policy())), Ok(false));
    assert_eq!(claims(&entry(1), false, None), Ok(false));
    assert_eq!(claims(&entry(3), false, Some(policy())), Ok(false));
    let mut broken = entry(1);
    broken.ephemeral_pubkey = "nope".to_string();
    assert_eq!(claims(&broken, false, Some(policy())), Err(ClaimError::InvalidEntryKey));

    assert!(matches!(
        step(&competition(), entry(1)),
        Ok(ClaimStep::Prepare { binding: 1, owed_sats: 60_000 })
    ));
    assert_eq!(owed_sats(&competition(), &entry(1)), Ok(60_000));
    assert_eq!(step(&competition(), entry(3)).unwrap_err(), ClaimError::NotAWinner);
}

#[test]
fn a_claim_is_prepared_only_for_a_bound_and_attested_contract() {
    let refused = |change: fn(&mut Competition)| {
        let mut changed = competition();
        change(&mut changed);
        step(&changed, entry(1)).unwrap_err()
    };
    assert_eq!(refused(|c| c.delta_broadcasted_at = Some(NOW)), ClaimError::OnChain);
    assert_eq!(refused(|c| c.signed_contract = None), ClaimError::NotSigned);
    assert_eq!(refused(|c| c.attestation = None), ClaimError::NotAttested);
    assert_eq!(refused(|c| c.contract_parameters = None), ClaimError::NoParameters);
    assert_eq!(
        refused(|c| c.attestation = Some(vec![11; 32])),
        ClaimError::NoOutcome(SettlementError::UnknownOutcome)
    );
    let mut contextless = entry(1);
    contextless.keymeld_registration_context = None;
    assert_eq!(step(&competition(), contextless).unwrap_err(), ClaimError::NoContext);
    let with = |entry: Option<UserEntry>, session: bool, bound: Option<Vec<BoundParticipant>>| {
        process_payout_job(&job(), &entry, &competition(), session, &None, &bound).unwrap_err()
    };
    assert_eq!(with(None, true, bindings()), ClaimError::EntryGone);
    assert_eq!(with(Some(entry(1)), false, bindings()), ClaimError::NoSession);
    assert_eq!(with(Some(entry(1)), true, None), ClaimError::NotBound);
    assert_eq!(with(Some(entry(1)), true, Some(vec![])), ClaimError::NoBinding);
    assert!(!is_settling_on_chain(&competition()));
}

#[test]
fn lost_preparation_response_reuses_claim_id_and_never_releases_unpaid_secrets() {
    let claim = PreparedClaim { claim_id: 7, user_id: 201, owed_sats: 60_000 };
    let prepared = |claim: PreparedClaim, owed: bool| {
        claim_was_prepared(&job(), &entry(1), 60_000, claim, owed)
    };
    assert_eq!(prepared(claim, true), Ok(()));
    assert_eq!(prepared(claim, false), Err(ClaimError::WrongInvoice));
    assert_eq!(
        prepared(PreparedClaim { claim_id: 9, ..claim }, true),
        Err(ClaimError::NotTheClaim)
    );
    assert_eq!(
        prepared(PreparedClaim { owed_sats: 1, ..claim }, true),
        Err(ClaimError::NotTheClaim)
    );
    // Nothing is released until the payment is proved.
    let mut job = job();
    job.payout_id = Some(8);
    let carried = |payout: Option<Payout>| {
        process_payout_job(&job, &Some(entry(1)), &competition(), true, &payout, &bindings())
    };
    assert!(matches!(carried(Some(payout())), Ok(ClaimStep::Poll)));
    let mut failed = payout();
    failed.failed_at = Some(5);
    assert!(matches!(carried(Some(failed)), Ok(ClaimStep::GiveUp)));
    assert_eq!(carried(None).unwrap_err(), ClaimError::PaymentGone);
}

#[test]
fn paid_claim_survives_worker_restart_and_enclave_retry_without_second_invoice() {
    let mut job = job();
    job.payout_id = Some(8);
    job.prepared_json = Some("receipt".to_string());
    let mut paid = payout();
    paid.succeed_at = Some(6);
    // The competition is long over, and the claim is carried on still.
    let mut over = competition();
    over.completed_at = Some(NOW);
    let carried = |job: &PayoutJob, payout: Payout| {
        process_payout_job(job, &Some(entry(1)), &over, true, &Some(payout), &None)
    };
    let hash = hex::encode(hashlock::sha256(&[7; 32]));
    assert!(matches!(
        carried(&job, paid),
        Ok(ClaimStep::LookUpProof { payment_hash }) if payment_hash == hash
    ));
    assert_eq!(
        proof_was_looked_up(PaymentStatus::Succeeded, Some("proof".to_string())),
        Ok("proof".to_string())
    );
    assert_eq!(
        proof_was_looked_up(PaymentStatus::Unknown, Some("proof".to_string())),
        Err(ClaimError::Unsettled)
    );
    assert_eq!(proof_was_looked_up(PaymentStatus::Succeeded, None), Err(ClaimError::NoProof));
    let mut proved = payout();
    proved.succeed_at = Some(6);
    proved.payment_preimage = Some(hex::encode([7; 32]));
    assert!(matches!(
        carried(&job, proved),
        Ok(ClaimStep::Release { payment_preimage }) if payment_preimage == hex::encode([7; 32])
    ));
    let released = |job: &PayoutJob, payout: &Payout, proof: &str| {
        release_claim(job, payout, &proof.to_string()).unwrap_err()
    };
    assert_eq!(released(&job, &payout(), "00"), ClaimError::InvalidProof);
    assert_eq!(
        released(&job, &payout(), &hex::encode([8; 32])),
        ClaimError::WrongProof
    );
    let mut unreadable = payout();
    unreadable.payout_payment_request = "nope".to_string();
    assert_eq!(
        released(&job, &unreadable, &hex::encode([7; 32])),
        ClaimError::InvalidInvoice
    );
    job.prepared_json = None;
    assert_eq!(
        released(&job, &payout(), &hex::encode([7; 32])),
        ClaimError::NoReceipt
    );
}
