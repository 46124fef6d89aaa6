use competitions::arkade::{ArkCommitment, TicketArkEscrow};
use competitions::competition::{Competition, CreateEvent};
use competitions::contract::{
    ContractParameters, EventAnnouncement, OutPoint, OutcomePayouts, SigMap, SignedContract,
    Transaction,
};
use competitions::contracting::{
    check_escrow_input, contract_need, contract_was_built, generate_players, keep_funding_psbt,
    keep_terms, registration_data, release_after_failed_reservation, ContractError, ContractNeed,
};
use competitions::entering::AddEntry;
use competitions::entries::{RegistrationContext, Ticket, UserEntry};
use competitions::kickoff::{
    ark_kickoff, check_kickoff, check_spend, find_holder, kickoff_players, pool_was_funded,
    KickoffError, KickoffPlan, SigningPurpose,
};
use competitions::kickoff_signing::{
    group_requests, place_signatures, InputSignature, SigningRequest,
};
use competitions::lifecycle::Coordinator;
use competitions::signing::{
    contract_was_signed, get_final_sigs_by_sender, get_received_nonces, nonces_were_aggregated,
    SigningError, SigningPath,
};
use dlctix::hashlock;
use dlctix::secp::Scalar;
use std::collections::{BTreeMap, HashMap};

const NOW: i128 = 1_800_000_000_000_000_000;

fn point(byte: u8) -> Vec<u8> {
    Scalar::from_slice(&[byte; 32]).unwrap().base_point_mul().serialize().to_vec()
}

fn entry(key: u8) -> UserEntry {
    AddEntry {
        id: 100 + key as u128,
        ticket_id: 200 + key as u128,
        event_id: 1,
        ephemeral_pubkey: hex::encode(point(key)),
        payout_hash: hex::encode([key; 32]),
        expected_observations: vec![],
        encrypted_keymeld_private_key: None,
        keymeld_auth_pubkey: None,
        keymeld_registration_context: None,
    }
    .into_user_entry("owner".to_string())
}

fn broken_entry(key: u8) -> UserEntry {
    let mut entry = entry(key);
    entry.ephemeral_pubkey = "nope".to_string();
    entry
}

fn parameters() -> ContractParameters {
    ContractParameters {
        market_maker: point(9),
        players: vec![],
        event: EventAnnouncement { locking_points: vec![point(10)], expiry: None },
        outcome_payouts: OutcomePayouts { attestations: BTreeMap::new(), expiry: None },
        fee_rate: 250,
        funding_value: 100_000,
        relative_locktime_block_delta: 72,
    }
}

fn competition() -> Competition {
    Competition::new(
        CreateEvent {
            id: 1,
            signing_date: NOW,
            start_observation_date: NOW,
            end_observation_date: NOW,
            locations: vec![],
            number_of_values_per_entry: 3,
            number_of_places_win: 1,
            total_allowed_entries: 2,
            entry_fee: 50_000,
            coordinator_fee_percentage: 0,
            total_competition_pool: 100_000,
            relative_locktime_block_delta: None,
            unlisted: false,
        },
        NOW,
    )
}

fn coordinator(keymeld_enabled: bool) -> Coordinator {
    Coordinator {
        escrow_enabled: true,
        keymeld_enabled,
        required_confirmations: 1,
        invoice_settlement_confirmations: 1,
        relative_locktime_block_delta: 144,
        automatic_payouts: false,
        automatic_payout_max_fee_rate: 0,
        tolerated_errors: 3,
        kept_settlement_errors: 5,
    }
}

fn signed() -> SignedContract {
    SignedContract {
        params: parameters(),
        funding_outpoint: OutPoint { txid: vec![5; 32], vout: 0 },
        encoded: "contract".to_string(),
    }
}

fn transaction() -> bitcoin::Transaction {
    bitcoin::Transaction {
        version: bitcoin::transaction::Version::TWO,
        lock_time: bitcoin::absolute::LockTime::ZERO,
        input: vec![bitcoin::TxIn::default()],
        output: vec![bitcoin::TxOut {
            value: bitcoin::Amount::from_sat(50_000),
            script_pubkey: bitcoin::ScriptBuf::from_bytes(vec![0x51]),
        }],
    }
}

fn raw() -> Vec<u8> {
    bitcoin::consensus::encode::serialize(&transaction())
}

fn txid() -> Vec<u8> {
    let txid = transaction().compute_txid();
    let bytes: &[u8] = txid.as_ref();
    bytes.to_vec()
}

#[test]
fn an_arkade_pool_is_funded_from_a_finished_contract() {
    let mut competition = competition();
    assert_eq!(check_kickoff(false, &competition, true), Err(KickoffError::NoArkade));
    assert_eq!(check_kickoff(true, &competition, true), Err(KickoffError::NoContract));
    competition.contract_parameters = Some(parameters());
    assert_eq!(check_kickoff(true, &competition, false), Err(KickoffError::NoSession));
    assert_eq!(check_kickoff(true, &competition, true), Ok(()));
    let funding = OutPoint { txid: vec![5; 32], vout: 1 };
    pool_was_funded(&mut competition, funding, Transaction { raw: vec![1] }, signed(), NOW);
    assert_eq!(competition.funding_outpoint.as_ref().unwrap().vout, 1);
    assert_eq!(competition.funding_transaction.as_ref().unwrap().raw, vec![1]);
    assert_eq!(competition.signed_contract.as_ref().unwrap().encoded, "contract");
    assert_eq!((competition.signed_at, competition.funding_broadcasted_at), (Some(NOW), Some(NOW)));
}

#[test]
fn players_are_found_by_their_keys() {
    let players = kickoff_players(&vec![entry(1), entry(3)]).unwrap();
    assert_eq!(players.len(), 2);
    assert_eq!(players[1].key, point(3)[1..].to_vec());
    assert_eq!(find_holder(&players, &point(3)[1..].to_vec()), Ok(203));
    assert_eq!(find_holder(&players, &point(5)[1..].to_vec()), Err(KickoffError::UnknownKey));
    assert_eq!(
        kickoff_players(&vec![entry(1), broken_entry(3)]).unwrap_err(),
        KickoffError::InvalidEntryKey(103)
    );
    assert_eq!(check_spend(SigningPurpose::IntentProof, false), Ok(()));
    assert_eq!(check_spend(SigningPurpose::Forfeit, true), Ok(()));
    assert_eq!(
        check_spend(SigningPurpose::Forfeit, false),
        Err(KickoffError::ForfeitTooEarly)
    );
}

fn escrow(ticket_id: u128) -> TicketArkEscrow {
    TicketArkEscrow {
        ticket_id,
        ticket_hash: "hash".to_string(),
        escrow_tap_tree: "cafe".to_string(),
        escrow_address: "ark1address".to_string(),
        swap_id: Some(7),
        vtxo_outpoint: Some(format!("{}:2", hex::encode([0xab; 32]))),
        vtxo_sats: Some(51_000),
        funded_at: Some(5),
    }
}

#[test]
fn every_escrow_goes_into_the_pool() {
    let entries = vec![entry(1), entry(3)];
    let escrows = || vec![escrow(201), escrow(203)];
    match ark_kickoff(&entries, &escrows(), &None, 100_000, 330).unwrap() {
        KickoffPlan::Fund { inputs, fee_sats, pays_fee } => {
            assert_eq!((inputs.len(), fee_sats, pays_fee), (2, 2_000, true));
            assert_eq!(inputs[1].tap_tree, vec![0xca, 0xfe]);
            assert_eq!(inputs[1].outpoint.txid, vec![0xab; 32]);
            assert_eq!((inputs[1].outpoint.vout, inputs[1].amount_sats), (2, 51_000));
        },
        KickoffPlan::Resume { .. } => panic!("nothing was committed yet"),
    }
    assert!(matches!(
        ark_kickoff(&entries, &escrows(), &None, 101_700, 330),
        Ok(KickoffPlan::Fund { fee_sats: 300, pays_fee: false, .. })
    ));
    let refused = |change: fn(&mut Vec<TicketArkEscrow>), value: u64| {
        let mut escrows = escrows();
        change(&mut escrows);
        ark_kickoff(&entries, &escrows, &None, value, 330).unwrap_err()
    };
    assert_eq!(refused(|_| (), 102_001), KickoffError::TooLittle);
    assert_eq!(
        refused(|escrows| drop(escrows.pop()), 1),
        KickoffError::EscrowsMissing { entries: 2, escrows: 1 }
    );
    assert_eq!(
        refused(|escrows| escrows[1].escrow_tap_tree = "x".to_string(), 1),
        KickoffError::InvalidTapTree(203)
    );
    assert_eq!(
        refused(|escrows| escrows[1].vtxo_outpoint = None, 1),
        KickoffError::Unfunded(203)
    );
    assert_eq!(
        refused(|escrows| escrows[1].vtxo_outpoint = Some("x".to_string()), 1),
        KickoffError::InvalidOutput(203)
    );
    assert_eq!(refused(|escrows| escrows[1].vtxo_sats = None, 1), KickoffError::NoAmount(203));
}

#[test]
fn a_committed_batch_is_taken_up_again() {
    let committed = |commitment_tx: String| {
        let done = ArkCommitment { batch_id: "batch".to_string(), commitment_tx, funding_vout: 3 };
        ark_kickoff(&vec![], &vec![], &Some(done), 100_000, 330)
    };
    match committed(hex::encode(raw())).unwrap() {
        KickoffPlan::Resume { funding, commitment } => {
            assert_eq!((funding.txid, funding.vout), (txid(), 3));
            assert_eq!(commitment.raw, raw());
        },
        KickoffPlan::Fund { .. } => panic!("the batch was committed"),
    }
    assert_eq!(committed("cafe".to_string()).unwrap_err(), KickoffError::InvalidCommitment);
}

fn request(key: u8, txid: u8, input_index: usize) -> SigningRequest {
    SigningRequest { key: vec![key; 32], txid: vec![txid; 32], input_index }
}

fn signature(input: usize, byte: u8) -> InputSignature {
    InputSignature { input, signature: vec![byte; 64] }
}

#[test]
fn requests_are_signed_by_key_and_transaction() {
    let requests = vec![request(2, 7, 1), request(1, 9, 0), request(2, 7, 0), request(1, 8, 4)];
    let groups = group_requests(&requests);
    assert_eq!(groups, vec![vec![3], vec![1], vec![0, 2]]);
    let signed =
        || vec![vec![signature(4, 0x84)], vec![signature(0, 0x90)], vec![signature(0, 1), signature(1, 2)]];
    let placed = place_signatures(&requests, &groups, &signed()).unwrap();
    assert_eq!(placed, vec![vec![2; 64], vec![0x90; 64], vec![1; 64], vec![0x84; 64]]);
    let mut missing = signed();
    missing[1].clear();
    assert_eq!(
        place_signatures(&requests, &groups, &missing).unwrap_err(),
        KickoffError::NotSigned(0)
    );
    let mut short = signed();
    short[0][0].signature.pop();
    assert_eq!(
        place_signatures(&requests, &groups, &short).unwrap_err(),
        KickoffError::InvalidSignature(4)
    );
    // Of several faults the first in the order of the groups is told, not of the requests.
    let mut several = signed();
    several[2].clear();
    several[1].clear();
    assert_eq!(
        place_signatures(&requests, &groups, &several).unwrap_err(),
        KickoffError::NotSigned(0)
    );
    several[1].push(signature(0, 0x90));
    assert_eq!(
        place_signatures(&requests, &groups, &several).unwrap_err(),
        KickoffError::NotSigned(1)
    );
}

fn ticket(key: u8) -> Ticket {
    Ticket {
        id: 200 + key as u128,
        competition_id: 1,
        entry_id: Some(100 + key as u128),
        encrypted_preimage: hex::encode([key; 32]),
        hash: hex::encode(hashlock::sha256(&[key; 32])),
        payment_request: None,
        invoice_expires_at: None,
        expiry: NOW,
        ephemeral_pubkey: Some(hex::encode(point(key))),
        reserved_by: None,
        reserved_at: None,
        paid_at: Some(NOW),
        settled_at: None,
        escrow_transaction: Some(hex::encode(raw())),
    }
}

#[test]
fn players_are_made_of_entries_and_their_tickets() {
    let tickets = || HashMap::from([(101u128, ticket(1)), (103, ticket(3))]);
    let entries = vec![entry(1), entry(5), entry(3)];
    let players = generate_players(&entries, &tickets()).unwrap();
    assert_eq!(players.len(), 2, "an entry without a ticket does not play");
    assert_eq!(players[1].pubkey, point(3));
    assert_eq!(players[1].ticket_hash, hashlock::sha256(&[3; 32]).to_vec());
    assert_eq!(players[1].payout_hash, vec![3; 32]);
    assert_eq!(
        generate_players(&vec![broken_entry(3)], &tickets()).unwrap_err(),
        ContractError::InvalidEntryKey(103)
    );
    let mut hashless = tickets();
    hashless.get_mut(&103).unwrap().hash = "nope".to_string();
    assert_eq!(
        generate_players(&entries, &hashless).unwrap_err(),
        ContractError::InvalidTicketHash(103)
    );
    let mut unpayable = entry(3);
    unpayable.payout_hash = "nope".to_string();
    assert_eq!(
        generate_players(&vec![unpayable], &tickets()).unwrap_err(),
        ContractError::InvalidPayoutHash(103)
    );
}

#[test]
fn an_escrow_funds_the_contract_of_its_player() {
    let entries = vec![entry(1), entry(3)];
    let input = check_escrow_input(&ticket(3), 0, &entries).unwrap();
    assert_eq!((input.outpoint.txid, input.outpoint.vout), (txid(), 0));
    assert_eq!((input.value, input.script_pubkey), (50_000, vec![0x51]));
    assert_eq!(input.user_pubkey, point(3));
    assert_eq!(input.payment_hash, hashlock::sha256(&[3; 32]).to_vec());
    assert_eq!(
        check_escrow_input(&ticket(3), 1, &entries).unwrap_err(),
        ContractError::MissingEscrowOutput(203)
    );
    let refused = |change: fn(&mut Ticket)| {
        let mut changed = ticket(3);
        change(&mut changed);
        check_escrow_input(&changed, 0, &entries).unwrap_err()
    };
    assert_eq!(
        refused(|ticket| ticket.escrow_transaction = None),
        ContractError::MissingEscrow(203)
    );
    assert_eq!(
        refused(|ticket| ticket.escrow_transaction = Some("cafe".to_string())),
        ContractError::InvalidEscrow(203)
    );
    assert_eq!(refused(|ticket| ticket.entry_id = Some(9)), ContractError::MissingEntry(203));
    assert_eq!(
        refused(|ticket| ticket.ephemeral_pubkey = None),
        ContractError::MissingEscrowKey(203)
    );
    assert_eq!(
        refused(|ticket| ticket.ephemeral_pubkey = Some(hex::encode(point(1)))),
        ContractError::EscrowKeyMismatch(203)
    );
    assert_eq!(
        refused(|ticket| ticket.hash = "nope".to_string()),
        ContractError::InvalidTicketHash(203)
    );
    assert_eq!(
        refused(|ticket| ticket.encrypted_preimage = "nope".to_string()),
        ContractError::InvalidPreimage(203)
    );
    assert_eq!(
        refused(|ticket| ticket.encrypted_preimage = hex::encode([4; 32])),
        ContractError::PaymentHashMismatch(203)
    );
    let mut unkeyed = ticket(3);
    unkeyed.ephemeral_pubkey = Some("nope".to_string());
    assert_eq!(
        check_escrow_input(&unkeyed, 0, &vec![broken_entry(3)]).unwrap_err(),
        ContractError::InvalidEscrowKey(203)
    );
}

#[test]
fn what_a_contract_is_built_of_is_kept() {
    let mut competition = competition();
    assert_eq!(contract_need(&competition), Err(ContractError::NoAnnouncement));
    competition.event_announcement = Some(parameters().event);
    assert_eq!(contract_need(&competition), Ok(ContractNeed::Build));
    let terms = coordinator(false).contract_terms(
        &competition,
        point(9),
        vec![],
        parameters().event,
        parameters().outcome_payouts,
        500,
    );
    assert_eq!((terms.funding_value, terms.fee_rate), (100_000, 500));
    assert_eq!(terms.relative_locktime_block_delta, 144);
    keep_terms(&mut competition, terms);
    keep_terms(&mut competition, parameters());
    assert_eq!(competition.contract_parameters.as_ref().unwrap().fee_rate, 500);
    assert!(release_after_failed_reservation(&competition));
    assert!(!competition.needs_funding_reservation());
    for vout in [1, 2] {
        let outpoint = OutPoint { txid: vec![5; 32], vout };
        keep_funding_psbt(&mut competition, "psbt".to_string(), outpoint);
    }
    assert_eq!(competition.funding_outpoint.as_ref().unwrap().vout, 1);
    assert!(!release_after_failed_reservation(&competition));
    assert!(competition.needs_funding_reservation());
    contract_was_built(&mut competition, None, NOW);
    contract_was_built(&mut competition, Some(SigMap::Stored("late".to_string())), NOW);
    assert!(matches!(competition.public_nonces, Some(SigMap::Empty)));
    assert_eq!(competition.contracted_at, Some(NOW));
    assert_eq!(contract_need(&competition), Ok(ContractNeed::Nothing));
}

#[test]
fn an_entry_registers_what_it_was_accepted_with() {
    let mut complete = entry(1);
    assert_eq!(
        registration_data(&complete).unwrap_err(),
        ContractError::MissingSealedKey(101)
    );
    complete.encrypted_keymeld_private_key = Some("sealed".to_string());
    assert_eq!(registration_data(&complete).unwrap_err(), ContractError::MissingAuthKey(101));
    complete.keymeld_auth_pubkey = Some("auth".to_string());
    assert_eq!(registration_data(&complete).unwrap_err(), ContractError::MissingContext(101));
    complete.keymeld_registration_context = Some(RegistrationContext {
        keygen_session_id: "session".to_string(),
        user_id: 201,
        manifest_hash: String::new(),
        enclave_id: 1,
        enclave_key_epoch: 1,
        public_key: String::new(),
        auth_pubkey: String::new(),
        require_signing_approval: false,
    });
    let data = registration_data(&complete).unwrap();
    assert_eq!((data.user_id, data.encrypted_private_key.as_str()), (201, "sealed"));
    assert_eq!(data.public_key, hex::encode(point(1)));
    assert_eq!((data.auth_pubkey.as_str(), data.context.enclave_id), ("auth", 1));
}

#[test]
fn signing_takes_the_path_that_is_set() {
    let mut competition = competition();
    let paths = |competition: &Competition| {
        let coordinator = coordinator(false);
        (coordinator.signing_path(competition), coordinator.aggregation_path(competition))
    };
    let no = |error: SigningError| (Err(error), Err(error));
    assert_eq!(paths(&competition), no(SigningError::NoParameters));
    assert_eq!(coordinator(true).aggregation_path(&competition), Ok(SigningPath::Keymeld));
    competition.contract_parameters = Some(parameters());
    assert_eq!(paths(&competition), no(SigningError::NoOutpoint));
    competition.funding_outpoint = Some(OutPoint { txid: vec![5; 32], vout: 1 });
    assert_eq!(coordinator(true).signing_path(&competition), Ok(SigningPath::Keymeld));
    assert_eq!(
        paths(&competition),
        (Err(SigningError::NoPartialSignatures), Err(SigningError::NoNonces))
    );
    competition.partial_signatures = Some(SigMap::Empty);
    assert_eq!(paths(&competition), no(SigningError::NoNonces));
    competition.public_nonces = Some(SigMap::Empty);
    assert_eq!(paths(&competition), (Ok(SigningPath::Aggregate), Ok(SigningPath::Aggregate)));
}

#[test]
fn every_player_sends_nonces_and_signatures() {
    let sent = |key: u8| {
        let mut entry = entry(key);
        entry.public_nonces = Some(SigMap::Empty);
        entry.partial_signatures = Some(SigMap::Empty);
        entry.funding_psbt_base64 = Some("psbt".to_string());
        entry.signed_at = Some(NOW);
        entry
    };
    let nonces = get_received_nonces(&vec![sent(1), sent(3)]).unwrap();
    assert_eq!((nonces[1].point.clone(), nonces[1].entry_index), (point(3), 1));
    assert_eq!(get_final_sigs_by_sender(&vec![sent(1), sent(3)]).unwrap().len(), 2);
    let missing = SigningError::Missing { expected: 2, got: 1 };
    assert_eq!(get_received_nonces(&vec![sent(1), entry(3)]).unwrap_err(), missing);
    let mut unfunded = sent(3);
    unfunded.funding_psbt_base64 = None;
    assert_eq!(get_final_sigs_by_sender(&vec![sent(1), unfunded]).unwrap_err(), missing);
    // Two entries with one key count once.
    assert_eq!(get_received_nonces(&vec![sent(1), sent(1)]).unwrap_err(), missing);
    let mut broken = sent(3);
    broken.ephemeral_pubkey = "nope".to_string();
    assert_eq!(
        get_received_nonces(&vec![sent(1), broken]).unwrap_err(),
        SigningError::InvalidEntryKey(103)
    );
}

#[test]
fn what_was_signed_is_kept() {
    let mut competition = competition();
    let stored = |text: &str| SigMap::Stored(text.to_string());
    nonces_were_aggregated(&mut competition, stored("a"), stored("b"));
    nonces_were_aggregated(&mut competition, stored("c"), stored("d"));
    assert_eq!(competition.aggregated_nonces.as_ref().unwrap().as_text(), "a");
    assert_eq!(competition.partial_signatures.as_ref().unwrap().as_text(), "b");
    contract_was_signed(&mut competition, signed(), NOW);
    contract_was_signed(&mut competition, signed(), NOW + 1);
    assert_eq!(competition.signed_at, Some(NOW));
}
