use base64::Engine;
use bitcoin::hashes::sha256;
use bitcoin::secp256k1::{Secp256k1, SecretKey};
use competitions::competition::{Competition, CreateEvent};
use competitions::contract::{
    ContractParameters, EventAnnouncement, OutPoint, Outcome, OutcomePayouts, Player,
    SignedContract,
};
use competitions::encoding::{normalize_hex32, parse_hash32};
use competitions::entries::{AddEventEntry, UserEntry};
use competitions::payout_jobs::extract_payment_hash_from_invoice;
use competitions::sellback::{
    parse_invoice, share, verify_entry_key, verify_payout_preimage, winner_payout_sats,
    PayoutRejection, MAX_INVOICE_LEN,
};
use competitions::settlement::SettlementError;
use competitions::ticket_payouts::{
    payout_was_recorded, submit_ticket_payout, PayoutInfo, PayoutRequestError,
};
use dlctix::hashlock;
use dlctix::secp::Scalar;
use lightning_invoice::{Currency, InvoiceBuilder, PaymentSecret};
use std::collections::BTreeMap;

const NOW: i128 = 1_800_000_000_000_000_000;

/// A signed regtest invoice for `payment_hash` and `amount_msat`.
fn invoice(payment_hash: [u8; 32], amount_msat: Option<u64>) -> String {
    let secp = Secp256k1::new();
    let node_key = SecretKey::from_slice(&[0x11; 32]).unwrap();
    let builder = InvoiceBuilder::new(Currency::Regtest)
        .description("payout".into())
        .payment_hash(<sha256::Hash as bitcoin::hashes::Hash>::from_byte_array(payment_hash))
        .payment_secret(PaymentSecret([7; 32]))
        .duration_since_epoch(std::time::UNIX_EPOCH.elapsed().unwrap())
        .min_final_cltv_expiry_delta(144);
    let signed = match amount_msat {
        Some(amount) => builder
            .amount_milli_satoshis(amount)
            .build_signed(|hash| secp.sign_ecdsa_recoverable(hash, &node_key)),
        None => builder.build_signed(|hash| secp.sign_ecdsa_recoverable(hash, &node_key)),
    };
    signed.unwrap().to_string()
}

struct Entry {
    preimage: [u8; 32],
    payout_hash: String,
}

fn entry() -> Entry {
    let preimage = hashlock::preimage_random(&mut rand::rng());
    Entry { payout_hash: hex::encode(hashlock::sha256(&preimage)), preimage }
}

#[test]
fn parses_invoices_and_rejects_malformed_or_oversized_ones() {
    let e = entry();
    let hash = hashlock::sha256(&e.preimage);
    let parsed = parse_invoice(&invoice(hash, Some(45_000_000))).unwrap();
    assert_eq!(parsed.amount_milli_satoshis(), Some(45_000_000));
    assert!(parse_invoice(&invoice(hash, None)).unwrap().amount_milli_satoshis().is_none());
    assert!(matches!(
        parse_invoice("lnbcrt1notaninvoice"),
        Err(PayoutRejection::InvalidInvoice(_))
    ));
    assert_eq!(
        parse_invoice(&"l".repeat(MAX_INVOICE_LEN + 1)).map(|_| ()),
        Err(PayoutRejection::InvoiceTooLong)
    );
}

#[test]
fn payout_preimage_is_accepted_only_if_it_opens_the_payout_hash() {
    let e = entry();
    assert_eq!(
        verify_payout_preimage(&hex::encode(e.preimage), &e.payout_hash),
        Ok(e.preimage.to_vec())
    );
    let as_base64 = base64::engine::general_purpose::STANDARD.encode(e.preimage);
    assert_eq!(verify_payout_preimage(&as_base64, &e.payout_hash), Ok(e.preimage.to_vec()));
    let wrong = hashlock::preimage_random(&mut rand::rng());
    assert_eq!(
        verify_payout_preimage(&hex::encode(wrong), &e.payout_hash),
        Err(PayoutRejection::PreimageMismatch)
    );
    for malformed in ["", "zz", "00"] {
        assert_eq!(
            verify_payout_preimage(malformed, &e.payout_hash),
            Err(PayoutRejection::InvalidPreimage)
        );
    }
}

#[test]
fn entry_key_must_open_the_entry_pubkey() {
    let key = Scalar::random(&mut rand::rng());
    let pubkey = key.base_point_mul().serialize().to_vec();
    let other = Scalar::random(&mut rand::rng());
    assert!(verify_entry_key(&hex::encode(key.serialize()), &pubkey).is_ok());
    assert_eq!(
        verify_entry_key(&hex::encode(other.serialize()), &pubkey),
        Err(PayoutRejection::KeyMismatch)
    );
    assert_eq!(verify_entry_key("nope", &pubkey), Err(PayoutRejection::InvalidKey));
}

#[test]
fn an_entry_key_is_a_number_of_the_curve() {
    let key = "fffffffffffffffffffffffffffffffebaaedce6af48a03bbfd25e8cd0364140";
    let pubkey = Scalar::from_hex(key).unwrap().base_point_mul().serialize().to_vec();
    assert!(verify_entry_key(key, &pubkey).is_ok());
    assert!(verify_entry_key(&key.to_uppercase(), &pubkey).is_ok());
    for refused in [
        "0000000000000000000000000000000000000000000000000000000000000000",
        "fffffffffffffffffffffffffffffffebaaedce6af48a03bbfd25e8cd0364141",
        "ffffffffffffffffffffffffffffffffffffffffffffffffffffffffffffffff",
        &key[2..],
        &key[1..],
        "",
    ] {
        assert_eq!(verify_entry_key(refused, &pubkey), Err(PayoutRejection::InvalidKey));
    }
}

fn player(rng: &mut rand::rngs::ThreadRng) -> Player {
    Player {
        pubkey: Scalar::random(rng).base_point_mul().serialize().to_vec(),
        ticket_hash: hashlock::sha256(&hashlock::preimage_random(rng)).to_vec(),
        payout_hash: hashlock::sha256(&hashlock::preimage_random(rng)).to_vec(),
    }
}

#[test]
fn payout_is_the_winners_weighted_share_and_losers_get_nothing() {
    let mut rng = rand::rng();
    let players = vec![player(&mut rng), player(&mut rng), player(&mut rng)];
    let keys: Vec<Vec<u8>> = players.iter().map(|player| player.pubkey.clone()).collect();
    let oracle = Scalar::random(&mut rng).base_point_mul();
    let nonce = Scalar::random(&mut rng).base_point_mul();
    let point = dlctix::attestation_locking_point(oracle, nonce, b"a");
    let params = ContractParameters {
        market_maker: Scalar::random(&mut rng).base_point_mul().serialize().to_vec(),
        players,
        event: EventAnnouncement {
            locking_points: vec![point.serialize().to_vec()],
            expiry: None,
        },
        outcome_payouts: OutcomePayouts {
            attestations: BTreeMap::from([(0, BTreeMap::from([(0, 60), (1, 40)]))]),
            expiry: None,
        },
        fee_rate: 250,
        funding_value: 100_000,
        relative_locktime_block_delta: 72,
    };
    let outcome = Outcome::Attestation(0);

    assert_eq!(winner_payout_sats(&params, &outcome, &keys[0]), Ok(60_000));
    assert_eq!(winner_payout_sats(&params, &outcome, &keys[1]), Ok(40_000));
    assert_eq!(
        winner_payout_sats(&params, &outcome, &keys[2]),
        Err(PayoutRejection::NotAWinner)
    );
    assert_eq!(
        winner_payout_sats(&params, &Outcome::Expiry, &keys[0]),
        Err(PayoutRejection::NotAWinner)
    );
}

#[test]
fn a_share_that_cannot_be_counted_stands_at_the_largest_amount() {
    assert_eq!(share(100_000, 60), 60_000);
    assert_eq!(share(1, 99), 0);
    assert_eq!(share(u64::MAX, 2), u64::MAX / 100);
}

#[test]
fn an_invoice_is_trimmed_and_tells_its_hash_and_expiry() {
    let text = invoice([9; 32], Some(1_000));
    let parsed = parse_invoice(&format!("  {text}\n")).unwrap();
    assert_eq!(parsed.payment_hash, vec![9; 32]);
    let expires_at = parsed.expires_at.unwrap();
    assert!(!parsed.would_expire(expires_at));
    assert!(parsed.would_expire(expires_at + 1));
    assert_eq!(extract_payment_hash_from_invoice(&text), Some(hex::encode([9; 32])));
    assert_eq!(extract_payment_hash_from_invoice("nonsense"), None);
}

#[test]
fn hashes_are_read_in_several_ways() {
    let hash = hex::encode([0xab; 32]);
    assert_eq!(parse_hash32(&hash), Some(vec![0xab; 32]));
    assert_eq!(parse_hash32(&format!("0x{}", hash.to_uppercase())), Some(vec![0xab; 32]));
    assert_eq!(parse_hash32("ab"), None);
    assert_eq!(parse_hash32("0xzz"), None);
    assert_eq!(normalize_hex32(&hash.to_uppercase()), Some(hash.clone()));
    let url_safe = base64::engine::general_purpose::URL_SAFE.encode([0xfb; 32]);
    assert_eq!(normalize_hex32(&format!(" {url_safe} ")), Some(hex::encode([0xfb; 32])));
    assert_eq!(normalize_hex32("AAAA"), None);
    assert_eq!(normalize_hex32("!"), None);
}

fn point(byte: u8) -> Vec<u8> {
    Scalar::from_slice(&[byte; 32]).unwrap().base_point_mul().serialize().to_vec()
}

/// Attested with the key 10: the player with the key 1 wins 60 of 100, the one with 3 nothing.
fn competition() -> Competition {
    let mut competition = Competition::new(
        CreateEvent {
            id: 1,
            signing_date: NOW,
            start_observation_date: NOW,
            end_observation_date: NOW,
            locations: vec![],
            number_of_values_per_entry: 1,
            number_of_places_win: 1,
            total_allowed_entries: 2,
            entry_fee: 50_000,
            coordinator_fee_percentage: 0,
            total_competition_pool: 100_000,
            relative_locktime_block_delta: Some(72),
            unlisted: false,
        },
        NOW,
    );
    let event = || EventAnnouncement { locking_points: vec![point(10)], expiry: None };
    competition.event_announcement = Some(event());
    competition.attestation = Some(vec![10; 32]);
    competition.signed_contract = Some(SignedContract {
        params: ContractParameters {
            market_maker: point(9),
            players: [1u8, 3]
                .into_iter()
                .map(|key| Player {
                    pubkey: point(key),
                    ticket_hash: vec![key; 32],
                    payout_hash: vec![key; 32],
                })
                .collect(),
            event: event(),
            outcome_payouts: OutcomePayouts {
                attestations: BTreeMap::from([(0, BTreeMap::from([(0, 60)]))]),
                expiry: None,
            },
            fee_rate: 250,
            funding_value: 100_000,
            relative_locktime_block_delta: 72,
        },
        funding_outpoint: OutPoint { txid: vec![5; 32], vout: 0 },
        encoded: String::new(),
    });
    competition
}

fn user_entry(key: u8) -> UserEntry {
    UserEntry {
        id: 100 + key as u128,
        event_id: 1,
        ticket_id: 200 + key as u128,
        pubkey: "player".to_string(),
        ephemeral_pubkey: hex::encode(point(key)),
        ephemeral_privatekey: None,
        payout_hash: hex::encode(hashlock::sha256(&[key + 1; 32])),
        payout_preimage: None,
        encrypted_keymeld_private_key: None,
        keymeld_auth_pubkey: None,
        keymeld_registration_context: None,
        public_nonces: None,
        partial_signatures: None,
        funding_psbt_base64: None,
        entry_submission: AddEventEntry {
            id: 100 + key as u128,
            event_id: 1,
            expected_observations: vec![],
        },
        signed_at: None,
        paid_at: Some(NOW),
        paid_out_at: None,
        sellback_broadcasted_at: None,
        reclaimed_broadcasted_at: None,
    }
}

fn info() -> PayoutInfo {
    PayoutInfo {
        ticket_id: 201,
        payout_preimage: hex::encode([2; 32]),
        ephemeral_private_key: hex::encode([1; 32]),
        ln_invoice: invoice([7; 32], Some(60_000_000)),
    }
}

fn submit(
    competition: &Competition,
    entries: &Vec<UserEntry>,
    info: &PayoutInfo,
) -> Result<u64, PayoutRequestError> {
    submit_ticket_payout(competition, entries, 101, true, info)
}

#[test]
fn a_winner_is_owed_their_share_for_their_secrets() {
    let entries = vec![user_entry(1), user_entry(3)];
    assert_eq!(submit(&competition(), &entries, &info()), Ok(60_000));
    let mut open = info();
    open.ln_invoice = invoice([7; 32], None);
    assert_eq!(submit(&competition(), &entries, &open), Ok(60_000));
    assert_eq!(payout_was_recorded(true), Ok(()));
    assert_eq!(payout_was_recorded(false), Err(PayoutRequestError::InProgress));
}

#[test]
fn payouts_are_refused_before_the_attestation_and_after_the_settlement() {
    let entries = vec![user_entry(1)];
    let mut early = competition();
    early.attestation = None;
    assert_eq!(submit(&early, &entries, &info()), Err(PayoutRequestError::NotAttested));
    let mut late = competition();
    late.delta_broadcasted_at = Some(NOW);
    assert_eq!(submit(&late, &entries, &info()), Err(PayoutRequestError::PaidOnChain));
    let mut unknown = competition();
    unknown.attestation = Some(vec![11; 32]);
    assert_eq!(
        submit(&unknown, &entries, &info()),
        Err(PayoutRequestError::NoOutcome(SettlementError::UnknownOutcome))
    );
    let mut unsigned = competition();
    unsigned.signed_contract = None;
    assert_eq!(submit(&unsigned, &entries, &info()), Err(PayoutRequestError::NotSigned));
    let mut unpaid = competition();
    unpaid.signed_contract.as_mut().unwrap().params.outcome_payouts.attestations = BTreeMap::new();
    assert_eq!(submit(&unpaid, &entries, &info()), Err(PayoutRequestError::NoPayout));
}

#[test]
fn a_payout_has_to_be_the_entrys_own() {
    let competition = competition();
    let mut entries = vec![user_entry(1), user_entry(3)];
    assert_eq!(
        submit_ticket_payout(&competition, &entries, 999, true, &info()),
        Err(PayoutRequestError::EntryNotFound(999))
    );
    let mut other = info();
    other.ticket_id = 999;
    assert_eq!(submit(&competition, &entries, &other), Err(PayoutRequestError::WrongTicket));
    assert_eq!(
        submit_ticket_payout(&competition, &entries, 101, false, &info()),
        Err(PayoutRequestError::TicketNotFound)
    );
    let mut loser = info();
    loser.ticket_id = 203;
    assert_eq!(
        submit_ticket_payout(&competition, &entries, 103, true, &loser),
        Err(PayoutRequestError::NotAWinner)
    );
    entries[0].paid_out_at = Some(NOW);
    assert_eq!(
        submit(&competition, &entries, &info()),
        Err(PayoutRequestError::AlreadyPaid(101))
    );
    entries[0].paid_out_at = None;
    entries[0].ephemeral_pubkey = "nope".to_string();
    assert_eq!(submit(&competition, &entries, &info()), Err(PayoutRequestError::InvalidEntryKey));
}

#[test]
fn a_payout_is_bought_only_with_the_right_secrets_and_amount() {
    let competition = competition();
    let entries = vec![user_entry(1)];
    let refused = |change: fn(&mut PayoutInfo)| {
        let mut changed = info();
        change(&mut changed);
        submit(&competition, &entries, &changed).unwrap_err()
    };
    assert_eq!(
        refused(|info| info.ephemeral_private_key = "nope".to_string()),
        PayoutRequestError::InvalidPrivateKey
    );
    assert_eq!(
        refused(|info| info.ephemeral_private_key = hex::encode([3; 32])),
        PayoutRequestError::WrongPrivateKey
    );
    assert_eq!(
        refused(|info| info.payout_preimage = "00".to_string()),
        PayoutRequestError::InvalidPreimage
    );
    assert_eq!(
        refused(|info| info.payout_preimage = hex::encode([3; 32])),
        PayoutRequestError::WrongPreimage
    );
    assert_eq!(
        refused(|info| info.ln_invoice = String::new()),
        PayoutRequestError::InvalidInvoice
    );
    assert_eq!(
        refused(|info| info.ln_invoice = "nonsense".to_string()),
        PayoutRequestError::InvalidInvoice
    );
    assert_eq!(
        refused(|info| info.ln_invoice = invoice([7; 32], Some(59_999_000))),
        PayoutRequestError::AmountMismatch { invoice: 59_999, expected: 60_000 }
    );
}
