use competitions::competition::{Competition, CreateEvent};
use competitions::contract::{
    ContractParameters, EventAnnouncement, OutPoint, OutcomePayouts, SigMap,
};
use competitions::entering::{
    check_entry_ticket, find_entry, get_aggregate_nonces, get_contract_parameters,
    get_keymeld_signing_info, registration_was_checked, submission_was_stored,
    submit_final_signatures, submit_public_nonces, validate_entry, validate_entry_keys, AddEntry,
    EntryError, StoredKeymeldSession,
};
use competitions::entries::{
    sort_by_ticket, RegistrationContext, Ticket, UserEntry, ValueOption, WeatherChoices,
};
use competitions::lifecycle::Coordinator;
use competitions::registration::{register_ticket, TicketRegistration};
use competitions::sealing::{open_session, seal_session};
use competitions::tickets::RequestError;
use dlctix::secp::Scalar;
use std::collections::BTreeMap;

const NOW: i128 = 1_800_000_000_000_000_000;

fn uuid() -> u128 {
    uuid::Uuid::now_v7().as_u128()
}

fn key(byte: u8) -> String {
    hex::encode(Scalar::from_slice(&[byte; 32]).unwrap().base_point_mul().serialize())
}

fn add_entry() -> AddEntry {
    AddEntry {
        id: uuid(),
        ticket_id: 201,
        event_id: 1,
        ephemeral_pubkey: key(1),
        payout_hash: hex::encode([0xab; 32]),
        expected_observations: vec![],
        encrypted_keymeld_private_key: None,
        keymeld_auth_pubkey: None,
        keymeld_registration_context: None,
    }
}

fn competition() -> Competition {
    Competition::new(
        CreateEvent {
            id: 1,
            signing_date: NOW,
            start_observation_date: NOW,
            end_observation_date: NOW,
            locations: vec!["KORD".to_string(), "KDEN".to_string()],
            number_of_values_per_entry: 3,
            number_of_places_win: 1,
            total_allowed_entries: 2,
            entry_fee: 50_000,
            coordinator_fee_percentage: 0,
            total_competition_pool: 100_000,
            relative_locktime_block_delta: None,
            unlisted: false,
        },
        NOW,
    )
}

fn ticket() -> Ticket {
    Ticket {
        id: 201,
        competition_id: 1,
        entry_id: None,
        encrypted_preimage: hex::encode([1; 32]),
        hash: hex::encode([2; 32]),
        payment_request: None,
        invoice_expires_at: None,
        expiry: NOW,
        ephemeral_pubkey: Some(key(1)),
        reserved_by: Some("player".to_string()),
        reserved_at: Some(NOW),
        paid_at: Some(NOW),
        settled_at: None,
        escrow_transaction: None,
    }
}

fn coordinator(keymeld_enabled: bool) -> Coordinator {
    Coordinator {
        escrow_enabled: false,
        keymeld_enabled,
        required_confirmations: 1,
        invoice_settlement_confirmations: 1,
        relative_locktime_block_delta: 72,
        automatic_payouts: false,
        automatic_payout_max_fee_rate: 0,
        tolerated_errors: 3,
        kept_settlement_errors: 5,
    }
}

fn context() -> RegistrationContext {
    RegistrationContext {
        keygen_session_id: "session".to_string(),
        user_id: 201,
        manifest_hash: hex::encode([6; 32]),
        enclave_id: 1,
        enclave_key_epoch: 1,
        public_key: key(1),
        auth_pubkey: key(21),
        require_signing_approval: false,
    }
}

fn choices(station: &str, count: usize) -> WeatherChoices {
    let choice = |wanted: usize| if count >= wanted { Some(ValueOption::Par) } else { None };
    WeatherChoices {
        stations: station.to_string(),
        temp_high: choice(1),
        temp_low: choice(2),
        wind_speed: choice(3),
    }
}

#[test]
fn entry_key_validation_normalizes_aliases_before_uniqueness_checks() {
    let key = Scalar::from_slice(&[1; 32]).unwrap().base_point_mul();
    let mut entry = AddEntry {
        id: uuid(),
        ticket_id: uuid(),
        event_id: uuid(),
        ephemeral_pubkey: hex::encode(key.serialize()).to_uppercase(),
        payout_hash: format!("0x{}", hex::encode([0xab; 32]).to_uppercase()),
        expected_observations: vec![],
        encrypted_keymeld_private_key: None,
        keymeld_auth_pubkey: None,
        keymeld_registration_context: None,
    };
    validate_entry_keys(&mut entry).unwrap();
    assert_eq!(entry.ephemeral_pubkey, hex::encode(key.serialize()));
    assert_eq!(entry.payout_hash, hex::encode([0xab; 32]));
    entry.payout_hash = "00".into();
    assert_eq!(validate_entry_keys(&mut entry), Err(EntryError::InvalidPayoutHash));
    entry.ephemeral_pubkey = "00".into();
    assert_eq!(validate_entry_keys(&mut entry), Err(EntryError::InvalidKey));
}

#[test]
fn keys_are_stored_compressed_however_they_are_written() {
    let point = Scalar::from_slice(&[1; 32]).unwrap().base_point_mul();
    let mut entry = add_entry();
    entry.ephemeral_pubkey = hex::encode(point.serialize_uncompressed());
    validate_entry_keys(&mut entry).unwrap();
    assert_eq!(entry.ephemeral_pubkey, key(1));
    // What is stored is stored as itself again.
    let hash = entry.payout_hash.clone();
    validate_entry_keys(&mut entry).unwrap();
    assert_eq!((entry.ephemeral_pubkey, entry.payout_hash), (key(1), hash));
}

#[test]
fn choices_are_counted_over_all_stations() {
    let competition = competition();
    let id = uuid();
    assert_eq!(validate_entry(id, &vec![choices("KORD", 3)], &competition), Ok(()));
    assert_eq!(
        validate_entry(id, &vec![choices("KORD", 2), choices("KDEN", 1)], &competition),
        Ok(())
    );
    assert_eq!(
        validate_entry(id, &vec![choices("KORD", 2), choices("KDEN", 2)], &competition),
        Err(EntryError::TooManyChoices { allowed: 3, got: 4 })
    );
    assert_eq!(
        validate_entry(id, &vec![choices("KSFO", 1)], &competition),
        Err(EntryError::UnknownLocation)
    );
    let random = uuid::Uuid::new_v4().as_u128();
    assert_eq!(validate_entry(random, &vec![], &competition), Err(EntryError::InvalidId));
}

#[test]
fn a_ticket_enters_its_own_competition_once() {
    let player = "player".to_string();
    let checked = |change: fn(&mut Ticket)| {
        let mut ticket = ticket();
        change(&mut ticket);
        check_entry_ticket(&ticket, &player, 1, &key(1))
    };
    assert_eq!(checked(|_| ()), Ok(()));
    assert_eq!(checked(|ticket| ticket.ephemeral_pubkey = None), Ok(()));
    assert_eq!(
        checked(|ticket| ticket.reserved_by = None),
        Err(EntryError::NotReservedByUser)
    );
    assert_eq!(checked(|ticket| ticket.paid_at = None), Err(EntryError::NotPaid));
    assert_eq!(checked(|ticket| ticket.entry_id = Some(5)), Err(EntryError::AlreadyUsed));
    assert_eq!(checked(|ticket| ticket.competition_id = 2), Err(EntryError::OtherCompetition));
    assert_eq!(
        checked(|ticket| ticket.ephemeral_pubkey = Some(key(2))),
        Err(EntryError::EscrowKeyMismatch)
    );
}

#[test]
fn an_entry_is_admitted_to_a_competition_that_still_collects() {
    let player = "player".to_string();
    let mut entry = add_entry();
    entry.payout_hash = format!("0x{}", entry.payout_hash);
    let added = coordinator(false).add_entry(
        &mut entry,
        &player,
        &Some(competition()),
        &Some(ticket()),
        &None,
        false,
    );
    assert!(added.unwrap().is_none());
    assert_eq!(entry.payout_hash, hex::encode([0xab; 32]));
    let stored = entry.into_user_entry(player.clone());
    assert_eq!((stored.ticket_id, stored.event_id, stored.pubkey), (201, 1, player.clone()));
    assert_eq!(stored.entry_submission.id, stored.id);
    assert!(stored.paid_at.is_none() && stored.public_nonces.is_none());

    let refused = |competition: Option<Competition>, ticket: Option<Ticket>| {
        coordinator(false)
            .add_entry(&mut add_entry(), &player, &competition, &ticket, &None, false)
            .unwrap_err()
    };
    assert_eq!(refused(None, Some(ticket())), EntryError::CompetitionNotFound);
    assert_eq!(refused(Some(competition()), None), EntryError::TicketNotFound);
    let mut cancelled = competition();
    cancelled.cancelled_at = Some(NOW);
    assert_eq!(refused(Some(cancelled), Some(ticket())), EntryError::NotAccepting);
}

fn registration() -> TicketRegistration {
    TicketRegistration {
        ephemeral_pubkey: key(1),
        encrypted_keymeld_private_key: "sealed-to-the-enclave".to_string(),
        keymeld_auth_pubkey: key(21),
        keymeld_registration_context: context(),
    }
}

#[test]
fn the_registration_sent_before_paying_is_the_one_the_entry_registers() {
    let register = |player: &str, registration: &TicketRegistration| {
        register_ticket(&Some(ticket()), &player.to_string(), 1, registration, true)
    };
    assert_eq!(
        register("mallory", &registration()).unwrap_err(),
        RequestError::NotReservedByUser
    );
    let mut another_key = registration();
    another_key.ephemeral_pubkey = key(2);
    assert_eq!(
        register("player", &another_key).unwrap_err(),
        RequestError::OtherContext,
        "the envelope's context names the key it registers"
    );
    another_key.ephemeral_pubkey = "nope".to_string();
    assert_eq!(register("player", &another_key).unwrap_err(), RequestError::InvalidKey);
    let mut another_slot = registration();
    another_slot.keymeld_registration_context.user_id = 202;
    assert_eq!(register("player", &another_slot).unwrap_err(), RequestError::OtherContext);
    let player = "player".to_string();
    assert_eq!(
        register_ticket(&None, &player, 1, &registration(), true).unwrap_err(),
        RequestError::TicketNotFound
    );
    assert_eq!(
        register_ticket(&Some(ticket()), &player, 2, &registration(), true).unwrap_err(),
        RequestError::OtherCompetition
    );
    assert_eq!(
        register_ticket(&Some(ticket()), &player, 1, &registration(), false).unwrap_err(),
        RequestError::NoKeymeldSession
    );
    let mut shouted = registration();
    shouted.ephemeral_pubkey = key(1).to_uppercase();
    for taken in [registration(), shouted] {
        let data = register("player", &taken).unwrap();
        assert_eq!((data.user_id, data.public_key), (201, key(1)));
        assert_eq!(data.encrypted_private_key, "sealed-to-the-enclave");
        assert_eq!(data.auth_pubkey, key(21));
        assert!(data.context.is_same(&context()));
    }

    let entered = |sealed: &str, auth: u8, epoch: u64| {
        let mut entry = add_entry();
        entry.encrypted_keymeld_private_key = Some(sealed.to_string());
        entry.keymeld_auth_pubkey = Some(key(auth));
        entry.keymeld_registration_context =
            Some(RegistrationContext { enclave_key_epoch: epoch, ..context() });
        coordinator(true).add_entry(
            &mut entry,
            &player,
            &Some(competition()),
            &Some(ticket()),
            &Some(registration()),
            true,
        )
    };
    let sealed = "sealed-to-the-enclave";
    for (sealed, auth, epoch) in [("sealed-again", 21, 1), (sealed, 22, 1), (sealed, 21, 2)] {
        assert_eq!(
            entered(sealed, auth, epoch).unwrap_err(),
            EntryError::OtherRegistration,
            "an entry cannot swap in another envelope than the one the ticket was paid with"
        );
    }
    assert_eq!(entered(sealed, 21, 1).unwrap().unwrap().encrypted_private_key, sealed);
}

#[test]
fn an_entry_registers_its_key_with_keymeld() {
    let player = "player".to_string();
    let registered = |has_session: bool, change: fn(&mut AddEntry)| {
        let mut entry = add_entry();
        entry.encrypted_keymeld_private_key = Some("sealed".to_string());
        entry.keymeld_auth_pubkey = Some(key(21));
        entry.keymeld_registration_context = Some(context());
        change(&mut entry);
        coordinator(true).add_entry(
            &mut entry,
            &player,
            &Some(competition()),
            &Some(ticket()),
            &None,
            has_session,
        )
    };
    let registration = registered(true, |_| ()).unwrap().unwrap();
    assert_eq!(registration.user_id, 201);
    assert_eq!(registration.encrypted_private_key, "sealed");
    assert_eq!(registration.public_key, key(1));
    assert_eq!(registration.auth_pubkey, key(21));
    assert!(registration.context.is_same(&context()));
    assert_eq!(registered(false, |_| ()).unwrap_err(), EntryError::NoKeymeldSession);
    assert_eq!(
        registered(true, |entry| entry.encrypted_keymeld_private_key = None).unwrap_err(),
        EntryError::MissingSealedKey
    );
    assert_eq!(
        registered(true, |entry| entry.keymeld_auth_pubkey = None).unwrap_err(),
        EntryError::MissingAuthKey
    );
    assert_eq!(
        registered(true, |entry| entry.keymeld_registration_context = None).unwrap_err(),
        EntryError::MissingContext
    );
    assert_eq!(registration_was_checked(true), Ok(()));
    assert_eq!(registration_was_checked(false), Err(EntryError::InvalidContext));
}

fn user_entry() -> UserEntry {
    add_entry().into_user_entry("player".to_string())
}

fn contracted() -> Competition {
    let mut competition = competition();
    competition.contract_parameters = Some(ContractParameters {
        market_maker: vec![2; 33],
        players: vec![],
        event: EventAnnouncement { locking_points: vec![], expiry: None },
        outcome_payouts: OutcomePayouts { attestations: BTreeMap::new(), expiry: None },
        fee_rate: 250,
        funding_value: 100_000,
        relative_locktime_block_delta: 72,
    });
    competition
}

#[test]
fn a_player_gets_the_contract_once_it_is_funded() {
    let entries = vec![user_entry()];
    let mut funded = contracted();
    funded.funding_outpoint = Some(OutPoint { txid: vec![5; 32], vout: 1 });
    funded.funding_psbt_base64 = Some("psbt".to_string());
    let contract = get_contract_parameters(funded, &entries, None).unwrap();
    assert_eq!(contract.funding_psbt_base64, "psbt");
    assert_eq!(contract.funding_outpoint.vout, 1);
    assert_eq!(contract.contract_params.funding_value, 100_000);
    let refused = |competition: Competition, entries: &Vec<UserEntry>| {
        get_contract_parameters(competition, entries, None).unwrap_err()
    };
    assert_eq!(refused(contracted(), &vec![]), EntryError::NoEntry);
    assert_eq!(refused(competition(), &entries), EntryError::NoContract);
    assert_eq!(refused(contracted(), &entries), EntryError::NoFunding);
}

#[test]
fn a_player_gets_the_aggregate_nonces_once_there_are_any() {
    let entries = vec![user_entry()];
    let mut aggregated = contracted();
    aggregated.aggregated_nonces = Some(SigMap::Stored("nonces".to_string()));
    assert_eq!(get_aggregate_nonces(aggregated, &entries).unwrap().as_text(), "nonces");
    assert_eq!(get_aggregate_nonces(contracted(), &vec![]).unwrap_err(), EntryError::NoEntry);
    assert_eq!(get_aggregate_nonces(contracted(), &entries).unwrap_err(), EntryError::NoAggregate);
}

#[test]
fn a_session_secret_is_sealed_for_its_player() {
    let ours = nostr_sdk::Keys::generate();
    let theirs = nostr_sdk::Keys::generate();
    let secret = ours.secret_key().to_secret_bytes().to_vec();
    let session = || {
        Some(StoredKeymeldSession {
            session_id: "session".to_string(),
            authorization_manifest: "manifest".to_string(),
        })
    };
    let gateway = || Some("https://keymeld.example".to_string());
    let asked = |ticket: &Ticket,
                 session: Option<StoredKeymeldSession>,
                 gateway: Option<String>,
                 player: &str| {
        get_keymeld_signing_info(
            &user_entry(),
            ticket,
            session,
            &vec![3; 32],
            gateway,
            &secret,
            player,
        )
    };
    let player = theirs.public_key().to_hex();
    let info = asked(&ticket(), session(), gateway(), &player).unwrap();
    assert!(info.enabled);
    assert_eq!(info.gateway_url, "https://keymeld.example");
    assert_eq!(info.session_id, "session");
    assert_eq!(info.authorization_manifest, "manifest");
    assert_eq!(info.user_id, "00000000-0000-0000-0000-0000000000c9");
    let opened = nostr_sdk::nips::nip44::decrypt(
        theirs.secret_key(),
        &ours.public_key(),
        &info.encrypted_session_secret,
    );
    assert_eq!(opened.unwrap(), hex::encode([3; 32]));

    let mut unpaid = ticket();
    unpaid.paid_at = None;
    assert_eq!(
        asked(&unpaid, session(), gateway(), &player).unwrap_err(),
        EntryError::NotPaid
    );
    assert_eq!(
        asked(&ticket(), None, gateway(), &player).unwrap_err(),
        EntryError::NoKeymeldSession
    );
    assert_eq!(
        asked(&ticket(), session(), None, &player).unwrap_err(),
        EntryError::NoGateway
    );
    assert_eq!(
        asked(&ticket(), session(), gateway(), "nope").unwrap_err(),
        EntryError::InvalidUserKey
    );
    assert_eq!(
        asked(&ticket(), session(), gateway(), &hex::encode([0xff; 32])).unwrap_err(),
        EntryError::SealingFailed
    );
    // A secret that is empty or too long is not sealed, nor is one with no key to seal it.
    let sealed = |secret: Vec<u8>, key: &Vec<u8>| {
        get_keymeld_signing_info(
            &user_entry(),
            &ticket(),
            session(),
            &secret,
            gateway(),
            key,
            &player,
        )
        .map(|info| info.encrypted_session_secret)
    };
    assert_eq!(sealed(vec![], &secret), Err(EntryError::SealingFailed));
    assert!(sealed(vec![3], &secret).is_ok());
    assert!(sealed(vec![3; 32_704], &secret).is_ok());
    assert_eq!(sealed(vec![3; 32_705], &secret), Err(EntryError::SealingFailed));
    assert_eq!(sealed(vec![3; 32], &vec![0; 32]), Err(EntryError::SealingFailed));
}

#[test]
fn a_stored_session_is_sealed_to_the_coordinators_key() {
    let (ours, theirs) = (vec![1; 32], vec![3; 32]);
    let sealed = seal_session(&ours, "{\"secret\":\"\u{e9}\"}").unwrap();
    assert!(!sealed.contains("secret"));
    assert_eq!(open_session(&ours, &sealed).unwrap(), "{\"secret\":\"\u{e9}\"}");
    assert_eq!(open_session(&theirs, &sealed), None);
    assert_eq!(open_session(&ours, "nope"), None);
    assert_eq!(open_session(&vec![0; 32], &sealed), None);
    assert_eq!(seal_session(&vec![0; 32], "{}"), None);
    assert_eq!(seal_session(&ours, ""), None);
    // The limit counts bytes, not characters.
    assert!(seal_session(&ours, &"e".repeat(65_408)).is_some());
    assert!(seal_session(&ours, &"e".repeat(65_409)).is_none());
    assert!(seal_session(&ours, &"\u{e9}".repeat(32_705)).is_none());
}

#[test]
fn a_player_submits_their_nonces_and_signatures_once() {
    let mine = SigMap::Stored("{\"by_outcome\":{\"att0\":1},\"by_win_condition\":{}}".to_string());
    let mut competition = contracted();
    let mut entries = vec![user_entry()];
    let id = entries[0].id;
    assert_eq!(
        submit_public_nonces(&competition, &entries, id, &mine),
        Err(EntryError::NoNonces)
    );
    assert_eq!(
        submit_final_signatures(&competition, &entries, id, &mine),
        Err(EntryError::NoPartialSignatures)
    );
    competition.public_nonces = Some(SigMap::Empty);
    competition.partial_signatures = Some(SigMap::Empty);
    assert_eq!(submit_public_nonces(&competition, &entries, id, &mine), Ok(()));
    assert_eq!(submit_final_signatures(&competition, &entries, id, &mine), Ok(()));
    assert_eq!(
        submit_public_nonces(&competition, &entries, id, &SigMap::Empty),
        Err(EntryError::NotThePlayers)
    );
    assert_eq!(
        submit_final_signatures(&competition, &entries, id, &SigMap::Empty),
        Err(EntryError::NotThePlayers)
    );
    let broken = SigMap::Stored("nope".to_string());
    assert_eq!(
        submit_public_nonces(&competition, &entries, id, &broken),
        Err(EntryError::Unreadable)
    );
    assert_eq!(
        submit_public_nonces(&competition, &entries, 5, &mine),
        Err(EntryError::EntryNotFound(5))
    );
    assert_eq!(
        submit_final_signatures(&competition, &entries, 5, &mine),
        Err(EntryError::EntryNotFound(5))
    );
    entries[0].public_nonces = Some(SigMap::Empty);
    assert_eq!(
        submit_public_nonces(&competition, &entries, id, &mine),
        Err(EntryError::AlreadySubmitted)
    );
    competition.contract_parameters = None;
    assert_eq!(
        submit_public_nonces(&competition, &entries, id, &mine),
        Err(EntryError::NoContract)
    );
    assert_eq!(submission_was_stored(true), Ok(()));
    assert_eq!(submission_was_stored(false), Err(EntryError::AlreadySubmitted));
}

#[test]
fn entries_are_put_in_the_order_of_their_tickets() {
    let mut entries: Vec<UserEntry> = [3u128, 1, 2, 1]
        .into_iter()
        .enumerate()
        .map(|(i, ticket_id)| {
            let mut entry = user_entry();
            entry.id = i as u128;
            entry.ticket_id = ticket_id;
            entry
        })
        .collect();
    sort_by_ticket(&mut entries);
    let ids: Vec<u128> = entries.iter().map(|entry| entry.id).collect();
    assert_eq!(ids, vec![1, 3, 2, 0]);
    assert_eq!(find_entry(&entries, 2), Some(2));
    assert_eq!(find_entry(&entries, 9), None);
}
