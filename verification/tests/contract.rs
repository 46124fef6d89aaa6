use bitcoin::consensus::encode::deserialize;
use competitions::chain::{transaction_id, TxOutput};
use competitions::competition::{Competition, CreateEvent};
use competitions::contract::{
    ContractParameters, EventAnnouncement, OutPoint, Outcome, OutcomePayouts, Player, SigMap,
    Transaction,
};
use competitions::contracting::ContractError;
use competitions::dlc_spends::SpentOutput;
use competitions::enforcement::{
    build_close_transaction, build_expiry_transaction, build_outcome_transaction,
    build_share_close_transaction, build_share_reclaim_transaction, build_split_transaction,
    p2tr_script_pubkey, simple_sweep_tx,
};
use competitions::entries::{AddEventEntry, Ticket, UserEntry};
use competitions::lifecycle::Coordinator;
use competitions::publishing::{
    build_step, delta_publication, is_broadcast, reclaim_publication, step_was_done, SettlementStep,
};
use competitions::settlement::{SettlementError, Winner};
use competitions::signing::SigningError;
use competitions::terms::{
    contract_nonces, encode_terms, find_contract_output, funding_script,
};
use dlctix::secp::{Point, Scalar};
use std::collections::BTreeMap;

const NOW: i128 = 1_800_000_000_000_000_000;

fn scalar(byte: u8) -> Scalar {
    Scalar::from_slice(&[byte; 32]).unwrap()
}

fn point(byte: u8) -> Vec<u8> {
    scalar(byte).base_point_mul().serialize().to_vec()
}

fn hash(byte: u8) -> Vec<u8> {
    dlctix::hashlock::sha256(&[byte; 32]).to_vec()
}

/// Two players with the keys 1 and 3, and a market maker with the key 9. The oracle attests with 10.
fn parameters() -> ContractParameters {
    ContractParameters {
        market_maker: point(9),
        players: [1u8, 3]
            .into_iter()
            .map(|key| Player {
                pubkey: point(key),
                ticket_hash: hash(key + 10),
                payout_hash: hash(key + 1),
            })
            .collect(),
        event: EventAnnouncement { locking_points: vec![point(10)], expiry: None },
        outcome_payouts: OutcomePayouts {
            attestations: BTreeMap::from([(0, BTreeMap::from([(0, 60), (1, 40)]))]),
            expiry: None,
        },
        fee_rate: 250,
        funding_value: 100_000,
        relative_locktime_block_delta: 72,
    }
}

fn outpoint() -> OutPoint {
    OutPoint { txid: vec![5; 32], vout: 1 }
}

fn coordinator(keymeld_enabled: bool) -> Coordinator {
    Coordinator {
        escrow_enabled: false,
        keymeld_enabled,
        required_confirmations: 1,
        invoice_settlement_confirmations: 1,
        relative_locktime_block_delta: 72,
        automatic_payouts: false,
        automatic_payout_max_fee_rate: 0,
        tolerated_errors: 3,
        kept_settlement_errors: 5,
    }
}

fn competition() -> Competition {
    let mut competition = Competition::new(
        CreateEvent {
            id: 1,
            signing_date: NOW,
            start_observation_date: NOW,
            end_observation_date: NOW,
            locations: vec![],
            number_of_values_per_entry: 1,
            number_of_places_win: 2,
            total_allowed_entries: 2,
            entry_fee: 50_000,
            coordinator_fee_percentage: 0,
            total_competition_pool: 100_000,
            relative_locktime_block_delta: Some(72),
            unlisted: false,
        },
        NOW,
    );
    competition.contract_parameters = Some(parameters());
    competition.funding_outpoint = Some(outpoint());
    competition
}

fn entry(key: u8) -> UserEntry {
    UserEntry {
        id: 100 + key as u128,
        event_id: 1,
        ticket_id: 200 + key as u128,
        pubkey: "player".to_string(),
        ephemeral_pubkey: hex::encode(point(key)),
        ephemeral_privatekey: None,
        payout_hash: hex::encode(hash(key + 1)),
        payout_preimage: None,
        encrypted_keymeld_private_key: None,
        keymeld_auth_pubkey: None,
        keymeld_registration_context: None,
        public_nonces: None,
        partial_signatures: None,
        funding_psbt_base64: None,
        entry_submission: AddEventEntry {
            id: 100 + key as u128,
            event_id: 1,
            expected_observations: vec![],
        },
        signed_at: None,
        paid_at: Some(NOW),
        paid_out_at: None,
        sellback_broadcasted_at: None,
        reclaimed_broadcasted_at: None,
    }
}

fn ticket(preimage: String) -> Ticket {
    Ticket {
        id: 201,
        competition_id: 1,
        entry_id: Some(101),
        encrypted_preimage: preimage,
        hash: hex::encode(hash(11)),
        payment_request: None,
        invoice_expires_at: None,
        expiry: NOW,
        ephemeral_pubkey: None,
        reserved_by: None,
        reserved_at: None,
        paid_at: None,
        settled_at: None,
        escrow_transaction: None,
    }
}

fn dlc() -> dlctix::TicketedDLC {
    let terms = serde_json::from_str(&encode_terms(&parameters()).unwrap()).unwrap();
    let txid = bitcoin::hashes::Hash::from_slice(&[5; 32]).unwrap();
    dlctix::TicketedDLC::new(terms, bitcoin::OutPoint::new(txid, 1)).unwrap()
}

fn session(key: u8) -> dlctix::SigningSession<dlctix::NonceSharingRound> {
    dlctix::SigningSession::new(dlc(), &mut rand::rng(), scalar(key)).unwrap()
}

fn text(map: &SigMap) -> String {
    map.as_text().to_string()
}

/// A competition whose contract the coordinator and both players have signed, and the entries.
fn signed() -> (Competition, Vec<UserEntry>) {
    let coordinator = coordinator(false);
    let key = vec![9u8; 32];
    let mut competition = competition();
    assert_eq!(coordinator.publish_nonces(&mut competition, &outpoint(), &key, NOW), Ok(()));
    assert_eq!(competition.contracted_at, Some(NOW));

    let sessions = [(1u8, session(1)), (3, session(3))];
    let mut entries: Vec<UserEntry> = Vec::new();
    for (key, session) in &sessions {
        let mut entry = entry(*key);
        let nonces = serde_json::to_string(session.our_public_nonces()).unwrap();
        entry.public_nonces = Some(SigMap::Stored(nonces));
        entries.push(entry);
    }
    let made = coordinator.generate_aggregate_nonces_and_coord_partial_signatures(
        &mut competition,
        &entries,
        &key,
    );
    assert_eq!(made, Ok(()));
    let aggregated = text(competition.aggregated_nonces.as_ref().unwrap());
    for (i, (_, session)) in sessions.into_iter().enumerate() {
        let signing =
            session.compute_partial_signatures(serde_json::from_str(&aggregated).unwrap()).unwrap();
        let signatures = serde_json::to_string(signing.our_partial_signatures()).unwrap();
        entries[i].partial_signatures = Some(SigMap::Stored(signatures));
        entries[i].funding_psbt_base64 = Some("psbt".to_string());
        entries[i].signed_at = Some(NOW);
    }
    assert_eq!(
        coordinator.sign_dlc_contract(&mut competition, &entries, &key, &None, NOW),
        Ok(())
    );
    (competition, entries)
}

#[test]
fn terms_are_written_as_their_signers_read_them() {
    let text = encode_terms(&parameters()).unwrap();
    let terms: dlctix::ContractParameters = serde_json::from_str(&text).unwrap();
    assert_eq!(terms.market_maker.pubkey, scalar(9).base_point_mul());
    assert_eq!(terms.players.len(), 2);
    assert_eq!(terms.players[1].pubkey, scalar(3).base_point_mul());
    assert_eq!(terms.players[1].ticket_hash.to_vec(), hash(13));
    assert_eq!(terms.players[1].payout_hash.to_vec(), hash(4));
    assert_eq!(terms.event.locking_points.len(), 1);
    assert_eq!(terms.event.expiry, None);
    assert_eq!(
        terms.outcome_payouts,
        BTreeMap::from([(
            dlctix::Outcome::Attestation(0),
            dlctix::PayoutWeights::from([(0, 60), (1, 40)])
        )])
    );
    assert_eq!(terms.fee_rate.to_sat_per_kwu(), 250);
    assert_eq!(terms.funding_value.to_sat(), 100_000);
    assert_eq!(terms.relative_locktime_block_delta, 72);
    assert_eq!(serde_json::to_string(&terms).unwrap(), text);
}

#[test]
fn terms_with_an_expiry_are_written_too() {
    let mut params = parameters();
    params.event.expiry = Some(1_900_000_000);
    params.outcome_payouts.expiry = Some(BTreeMap::from([(0, 50), (1, 50)]));
    let text = encode_terms(&params).unwrap();
    let terms: dlctix::ContractParameters = serde_json::from_str(&text).unwrap();
    assert_eq!(terms.event.expiry, Some(1_900_000_000));
    assert_eq!(
        terms.outcome_payouts.get(&dlctix::Outcome::Expiry),
        Some(&dlctix::PayoutWeights::from([(0, 50), (1, 50)]))
    );
}

#[test]
fn terms_that_cannot_be_read_have_no_text() {
    let mut params = parameters();
    params.players[0].pubkey = vec![1; 33];
    assert!(encode_terms(&params).is_none());
    let mut params = parameters();
    params.players[1].ticket_hash = vec![1; 31];
    assert!(encode_terms(&params).is_none());
    let mut params = parameters();
    params.market_maker = vec![];
    assert!(encode_terms(&params).is_none());
    assert_eq!(funding_script(&params), Err(ContractError::InvalidTerms));
}

#[test]
fn a_copy_has_the_same_terms() {
    let params = parameters();
    assert_eq!(encode_terms(&params.duplicate()), encode_terms(&params));
}

#[test]
fn the_funding_output_pays_the_contracts_script() {
    let params = parameters();
    let script = funding_script(&params).unwrap();
    assert_eq!(script, dlc().funding_output().script_pubkey.to_bytes());
    let outputs = vec![
        TxOutput { value: 99_999, script_pubkey: script.clone() },
        TxOutput { value: 100_000, script_pubkey: vec![1] },
        TxOutput { value: 100_000, script_pubkey: script },
    ];
    assert_eq!(find_contract_output(&params, 100_000, &outputs), Ok(2));
    assert_eq!(
        find_contract_output(&params, 100_000, &vec![]),
        Err(ContractError::NoFundingOutput)
    );
}

#[test]
fn the_coordinators_nonces_are_the_same_every_time() {
    let key = vec![9u8; 32];
    let first = contract_nonces(&parameters(), &outpoint(), &key).unwrap();
    let again = contract_nonces(&parameters(), &outpoint(), &key).unwrap();
    assert_eq!(first, again);
    let mut changed = parameters();
    changed.fee_rate = 500;
    assert_ne!(contract_nonces(&changed, &outpoint(), &key).unwrap(), first);
    let elsewhere = OutPoint { txid: vec![5; 32], vout: 2 };
    assert_ne!(contract_nonces(&parameters(), &elsewhere, &key).unwrap(), first);
}

#[test]
fn a_key_that_is_not_the_contracts_gives_no_nonces() {
    let stranger = vec![77u8; 32];
    assert_eq!(
        contract_nonces(&parameters(), &outpoint(), &stranger),
        Err(SigningError::NoSession)
    );
    let mut refused = parameters();
    refused.fee_rate = 0;
    assert_eq!(
        contract_nonces(&refused, &outpoint(), &vec![9; 32]),
        Err(SigningError::InvalidContract)
    );
    refused.market_maker = vec![];
    assert_eq!(
        contract_nonces(&refused, &outpoint(), &vec![9; 32]),
        Err(SigningError::InvalidTerms)
    );
}

#[test]
fn nonces_are_published_once() {
    let coordinator = coordinator(false);
    let key = vec![9u8; 32];
    let mut competition = competition();
    assert_eq!(coordinator.publish_nonces(&mut competition, &outpoint(), &key, NOW), Ok(()));
    let published = text(competition.public_nonces.as_ref().unwrap());
    assert_eq!(published, contract_nonces(&parameters(), &outpoint(), &key).unwrap());
    competition.public_nonces = Some(SigMap::Stored("kept".to_string()));
    assert_eq!(coordinator.publish_nonces(&mut competition, &outpoint(), &key, NOW + 1), Ok(()));
    assert_eq!(text(competition.public_nonces.as_ref().unwrap()), "kept");
    assert_eq!(competition.contracted_at, Some(NOW + 1));
}

#[test]
fn a_contract_without_terms_or_funding_is_not_built() {
    let coordinator = coordinator(false);
    let key = vec![9u8; 32];
    let mut missing = competition();
    missing.contract_parameters = None;
    assert_eq!(
        coordinator.publish_nonces(&mut missing, &outpoint(), &key, NOW),
        Err(SigningError::NoParameters)
    );
    assert!(missing.public_nonces.is_none());
    let mut missing = competition();
    missing.public_nonces = Some(SigMap::Empty);
    missing.funding_outpoint = None;
    assert_eq!(
        coordinator.generate_aggregate_nonces_and_coord_partial_signatures(
            &mut missing,
            &vec![],
            &key,
        ),
        Err(SigningError::NoOutpoint)
    );
}

#[test]
fn keymeld_keeps_nonces_of_its_own() {
    let coordinator = coordinator(true);
    let key = vec![9u8; 32];
    let mut competition = competition();
    assert_eq!(coordinator.publish_nonces(&mut competition, &outpoint(), &key, NOW), Ok(()));
    assert!(matches!(competition.public_nonces, Some(SigMap::Empty)));
    let made = coordinator.generate_aggregate_nonces_and_coord_partial_signatures(
        &mut competition,
        &vec![],
        &key,
    );
    assert_eq!(made, Ok(()));
    assert!(matches!(competition.aggregated_nonces, Some(SigMap::Empty)));
    assert!(matches!(competition.partial_signatures, Some(SigMap::Empty)));
}

#[test]
fn a_contract_is_signed_by_everyone() {
    let (competition, _) = signed();
    assert_eq!(competition.signed_at, Some(NOW));
    let contract = competition.signed_contract.as_ref().unwrap();
    let read: dlctix::SignedContract = serde_json::from_str(&contract.encoded).unwrap();
    assert!(dlc()
        .verify_signatures(scalar(9).base_point_mul(), read.all_signatures())
        .is_ok());
    assert_eq!(contract.funding_outpoint.vout, 1);
    assert_eq!(encode_terms(&contract.params), encode_terms(&parameters()));
}

#[test]
fn a_contract_that_was_signed_first_is_kept() {
    let (mut competition, entries) = signed();
    let first = competition.signed_contract.as_ref().unwrap().encoded.clone();
    let again = coordinator(false).sign_dlc_contract(
        &mut competition,
        &entries,
        &vec![9; 32],
        &None,
        NOW + 5,
    );
    assert_eq!(again, Ok(()));
    assert_eq!(competition.signed_contract.as_ref().unwrap().encoded, first);
    assert_eq!(competition.signed_at, Some(NOW));
}

#[test]
fn changed_nonces_or_signatures_of_the_coordinator_are_refused() {
    let coordinator = coordinator(false);
    let key = vec![9u8; 32];
    let (mut competition, entries) = signed();
    competition.signed_contract = None;
    competition.partial_signatures = Some(SigMap::Stored("{}".to_string()));
    assert_eq!(
        coordinator.sign_dlc_contract(&mut competition, &entries, &key, &None, NOW),
        Err(SigningError::PartialSignatureMismatch)
    );
    competition.public_nonces = Some(SigMap::Stored("{}".to_string()));
    assert_eq!(
        coordinator.sign_dlc_contract(&mut competition, &entries, &key, &None, NOW),
        Err(SigningError::NonceMismatch)
    );
    competition.partial_signatures = None;
    assert_eq!(
        coordinator.sign_dlc_contract(&mut competition, &entries, &key, &None, NOW),
        Err(SigningError::NoPartialSignatures)
    );
    assert!(competition.signed_contract.is_none());
}

#[test]
fn nonces_and_signatures_are_compared_by_what_they_stand_for() {
    let coordinator = coordinator(false);
    let key = vec![9u8; 32];
    let (mut competition, entries) = signed();
    let contract = competition.signed_contract.take().unwrap().encoded;
    // The same maps, written with other spaces and the other member first.
    let rewritten = |map: &SigMap| {
        let read: serde_json::Value = serde_json::from_str(&text(map)).unwrap();
        let again = format!(
            "{{ \"by_win_condition\": {}, \"by_outcome\": {} }}",
            read["by_win_condition"], read["by_outcome"]
        );
        assert_ne!(again, text(map));
        Some(SigMap::Stored(again))
    };
    competition.public_nonces = rewritten(competition.public_nonces.as_ref().unwrap());
    competition.partial_signatures = rewritten(competition.partial_signatures.as_ref().unwrap());
    assert_eq!(
        coordinator.sign_dlc_contract(&mut competition, &entries, &key, &None, NOW),
        Ok(())
    );
    assert_eq!(competition.signed_contract.unwrap().encoded, contract);
}

#[test]
fn a_players_signatures_have_to_be_there_and_verify() {
    let coordinator = coordinator(false);
    let key = vec![9u8; 32];
    let (mut competition, mut entries) = signed();
    competition.signed_contract = None;
    let first = text(entries[0].partial_signatures.as_ref().unwrap());
    entries[1].partial_signatures = Some(SigMap::Stored(first));
    assert_eq!(
        coordinator.sign_dlc_contract(&mut competition, &entries, &key, &None, NOW),
        Err(SigningError::InvalidSignatures(1))
    );
    entries[1].partial_signatures = None;
    assert_eq!(
        coordinator.sign_dlc_contract(&mut competition, &entries, &key, &None, NOW),
        Err(SigningError::Missing { expected: 2, got: 1 })
    );
    entries[1].public_nonces = None;
    assert_eq!(
        coordinator.sign_dlc_contract(&mut competition, &entries, &key, &None, NOW),
        Err(SigningError::Missing { expected: 2, got: 1 })
    );
    entries[0].ephemeral_pubkey = "no key".to_string();
    assert_eq!(
        coordinator.sign_dlc_contract(&mut competition, &entries, &key, &None, NOW),
        Err(SigningError::InvalidEntryKey(101))
    );
}

#[test]
fn unreadable_nonces_do_not_aggregate() {
    let coordinator = coordinator(false);
    let key = vec![9u8; 32];
    let mut competition = competition();
    coordinator.publish_nonces(&mut competition, &outpoint(), &key, NOW).unwrap();
    let mut entries = vec![entry(1), entry(3)];
    entries[0].public_nonces = Some(SigMap::Stored("nonsense".to_string()));
    entries[1].public_nonces = Some(SigMap::Stored("nonsense".to_string()));
    assert_eq!(
        coordinator.generate_aggregate_nonces_and_coord_partial_signatures(
            &mut competition,
            &entries,
            &key,
        ),
        Err(SigningError::NotAggregated)
    );
    assert!(competition.aggregated_nonces.is_none());
}

#[test]
fn keymelds_signatures_are_taken_over_only_whole_and_valid() {
    let (signed_by_all, entries) = signed();
    let read: dlctix::SignedContract =
        serde_json::from_str(&signed_by_all.signed_contract.unwrap().encoded).unwrap();
    let signatures = serde_json::to_string(read.all_signatures()).unwrap();
    let coordinator = coordinator(true);
    let key = vec![9u8; 32];
    let mut competition = competition();
    assert_eq!(
        coordinator.sign_dlc_contract(&mut competition, &entries, &key, &None, NOW),
        Err(SigningError::NoKeymeldSignatures)
    );
    let mut incomplete = read.all_signatures().clone();
    incomplete.split_tx_signatures.clear();
    assert_eq!(
        coordinator.sign_dlc_contract(
            &mut competition,
            &entries,
            &key,
            &Some(serde_json::to_string(&incomplete).unwrap()),
            NOW
        ),
        Err(SigningError::InvalidKeymeldSignatures)
    );
    assert_eq!(
        coordinator.sign_dlc_contract(&mut competition, &entries, &key, &Some(signatures), NOW),
        Ok(())
    );
    assert!(competition.signed_contract.is_some());
}

#[test]
fn an_attestation_unlocks_the_outcome() {
    let (mut competition, _) = signed();
    competition.event_announcement = Some(parameters().event);
    assert_eq!(
        build_outcome_transaction(&competition).err(),
        Some(SettlementError::NoAttestation)
    );
    competition.attestation = Some(vec![10; 32]);
    let built = build_outcome_transaction(&competition).unwrap().unwrap();
    let tx: bitcoin::Transaction = deserialize(&built.raw).unwrap();
    let unsigned = dlc();
    let expected = &unsigned.unsigned_outcome_txs()[&dlctix::Outcome::Attestation(0)];
    assert_eq!(tx.compute_txid(), expected.compute_txid());
    assert!(!tx.input[0].witness.is_empty());

    competition.attestation = Some(vec![12; 32]);
    assert_eq!(
        build_outcome_transaction(&competition).err(),
        Some(SettlementError::UnknownOutcome)
    );
    competition.attestation = Some(vec![10; 32]);
    competition.outcome_transaction = Some(built);
    competition.outcome_broadcasted_at = Some(NOW);
    assert!(build_outcome_transaction(&competition).unwrap().is_none());
}

#[test]
fn a_contract_without_an_expiry_has_no_transaction_for_it() {
    let (competition, _) = signed();
    let contract = competition.signed_contract.unwrap();
    assert_eq!(
        build_expiry_transaction(&contract).err(),
        Some(SettlementError::NoExpiryTransaction)
    );
}

#[test]
fn a_winners_ticket_splits_the_outcome() {
    let (competition, _) = signed();
    let contract = competition.signed_contract.unwrap();
    let outcome = Outcome::Attestation(0);
    let opened = ticket(hex::encode([11; 32]));
    let built = build_split_transaction(&contract, outcome, 0, &opened).unwrap();
    let tx: bitcoin::Transaction = deserialize(&built.raw).unwrap();
    assert_eq!(tx.output.len(), 2);
    assert_eq!(
        build_split_transaction(&contract, outcome, 1, &opened).err(),
        Some(SettlementError::NotBuilt),
        "the ticket is another player's"
    );
    assert_eq!(
        build_split_transaction(&contract, Outcome::Expiry, 0, &opened).err(),
        Some(SettlementError::NotBuilt)
    );
    for unreadable in ["", "zz", "1111"] {
        assert_eq!(
            build_split_transaction(&contract, outcome, 0, &ticket(unreadable.to_string())).err(),
            Some(SettlementError::InvalidTicketPreimage)
        );
    }
}

fn winners() -> Vec<Winner> {
    vec![
        Winner { player_index: 0, entry_index: 0, entry_id: 101, ticket_id: 201 },
        Winner { player_index: 1, entry_index: 1, entry_id: 103, ticket_id: 203 },
    ]
}

#[test]
fn paid_winners_keys_close_the_outcome() {
    let (competition, mut entries) = signed();
    let contract = competition.signed_contract.unwrap();
    let outcome = Outcome::Attestation(0);
    let key = vec![9u8; 32];
    entries[0].ephemeral_privatekey = Some(hex::encode([1; 32]));
    assert_eq!(
        build_close_transaction(&contract, outcome, &entries, &winners(), &key, 250).err(),
        Some(SettlementError::NotSigned),
        "a key is missing"
    );
    entries[1].ephemeral_privatekey = Some(hex::encode([3; 32]));
    let built =
        build_close_transaction(&contract, outcome, &entries, &winners(), &key, 250).unwrap();
    let tx: bitcoin::Transaction = deserialize(&built.raw).unwrap();
    let value = dlc().unsigned_outcome_txs()[&dlctix::Outcome::Attestation(0)].output[0].value;
    assert_eq!(tx.output.len(), 1);
    // 444 weight units at a quarter of a satoshi each.
    assert_eq!(tx.output[0].value.to_sat(), value.to_sat() - 111);
    assert_eq!(tx.weight().to_wu(), 444);
    assert_eq!(tx.output[0].script_pubkey.to_bytes(), p2tr_script_pubkey(&point(9)));
    assert_eq!(
        build_close_transaction(&contract, outcome, &entries, &winners(), &key, u64::MAX).err(),
        Some(SettlementError::FeeNotCovered)
    );
    assert_eq!(
        build_close_transaction(&contract, outcome, &entries, &winners(), &key, 1_000_000).err(),
        Some(SettlementError::FeeNotCovered)
    );
    assert_eq!(
        build_close_transaction(&contract, Outcome::Expiry, &entries, &winners(), &key, 250).err(),
        Some(SettlementError::NotBuilt)
    );
}

#[test]
fn a_winners_key_closes_their_share() {
    let (competition, mut entries) = signed();
    let contract = competition.signed_contract.unwrap();
    let outcome = Outcome::Attestation(0);
    let key = vec![9u8; 32];
    assert_eq!(
        build_share_close_transaction(&contract, outcome, 0, &entries[0], &key, 250).err(),
        Some(SettlementError::InvalidWinnerKey)
    );
    entries[0].ephemeral_privatekey = Some("nope".to_string());
    assert_eq!(
        build_share_close_transaction(&contract, outcome, 0, &entries[0], &key, 250).err(),
        Some(SettlementError::InvalidWinnerKey)
    );
    entries[0].ephemeral_privatekey = Some(hex::encode([1; 32]));
    let built =
        build_share_close_transaction(&contract, outcome, 0, &entries[0], &key, 250).unwrap();
    let tx: bitcoin::Transaction = deserialize(&built.raw).unwrap();
    let unsigned = dlc();
    let split = &unsigned.unsigned_split_txs()[&dlctix::Outcome::Attestation(0)];
    assert_eq!(tx.input[0].previous_output.txid, split.compute_txid());
    assert_eq!(tx.output[0].value.to_sat(), split.output[0].value.to_sat() - 111);

    // The second winner's share is another output of the split, and the one input of its own sweep.
    entries[1].ephemeral_privatekey = Some(hex::encode([3; 32]));
    let built =
        build_share_close_transaction(&contract, outcome, 1, &entries[1], &key, 250).unwrap();
    let tx: bitcoin::Transaction = deserialize(&built.raw).unwrap();
    assert_eq!(tx.input.len(), 1);
    assert_eq!(tx.input[0].previous_output, bitcoin::OutPoint::new(split.compute_txid(), 1));
    assert!(!tx.input[0].witness.is_empty());
    assert_eq!(tx.output[0].value.to_sat(), split.output[1].value.to_sat() - 111);
}

#[test]
fn the_market_maker_reclaims_a_share() {
    let (competition, _) = signed();
    let contract = competition.signed_contract.unwrap();
    let outcome = Outcome::Attestation(0);
    let built =
        build_share_reclaim_transaction(&contract, outcome, 0, &vec![9; 32], 250).unwrap();
    let tx: bitcoin::Transaction = deserialize(&built.raw).unwrap();
    assert_eq!(tx.input[0].sequence.to_consensus_u32(), 144, "twice the timelock");
    assert_eq!(tx.output.len(), 1);
    let second =
        build_share_reclaim_transaction(&contract, outcome, 1, &vec![9; 32], 250).unwrap();
    let second: bitcoin::Transaction = deserialize(&second.raw).unwrap();
    assert_eq!(second.input[0].previous_output.vout, 1);
    assert!(!second.input[0].witness.is_empty());
    assert_eq!(
        build_share_reclaim_transaction(&contract, outcome, 0, &vec![8; 32], 250).err(),
        Some(SettlementError::NotSigned)
    );
    assert_eq!(
        build_share_reclaim_transaction(&contract, outcome, 5, &vec![9; 32], 250).err(),
        Some(SettlementError::NotBuilt)
    );
}

#[test]
fn a_sweep_is_encoded_as_the_chain_reads_it() {
    let spent = SpentOutput {
        outpoint: OutPoint { txid: vec![7; 32], vout: 258 },
        sequence: 144,
        output: TxOutput { value: 5_000_000_000, script_pubkey: vec![] },
    };
    let tx = simple_sweep_tx(&point(9), &spent, 444, 1_001);
    let read: bitcoin::Transaction = deserialize(&tx.raw).unwrap();
    let txid = bitcoin::hashes::Hash::to_byte_array(read.compute_txid()).to_vec();
    assert_eq!(transaction_id(&tx), Some(txid));
    assert_eq!(transaction_id(&Transaction { raw: vec![0; 4] }), None);
    assert_eq!(read.version.0, 2);
    assert_eq!(read.lock_time.to_consensus_u32(), 0);
    assert_eq!(read.input.len(), 1);
    assert_eq!(read.input[0].previous_output.vout, 258);
    assert_eq!(
        bitcoin::hashes::Hash::to_byte_array(read.input[0].previous_output.txid),
        [7; 32]
    );
    assert_eq!(read.input[0].sequence.to_consensus_u32(), 144);
    // 444 * 1001 / 1000, rounded up.
    assert_eq!(read.output[0].value.to_sat(), 5_000_000_000 - 445);
    assert_eq!(bitcoin::consensus::encode::serialize(&read), tx.raw);
    let key = Point::from_slice(&point(9)).unwrap();
    assert_eq!(read.output[0].script_pubkey.as_bytes()[2..], key.serialize_xonly());
    assert!(read.output[0].script_pubkey.is_p2tr());
}

/// A competition whose contract is signed and whose outcome was published at the height 1000.
fn published() -> (Competition, Vec<UserEntry>) {
    let (mut competition, entries) = signed();
    competition.event_announcement = Some(parameters().event);
    competition.attestation = Some(vec![10; 32]);
    competition.outcome_transaction =
        Some(build_outcome_transaction(&competition).unwrap().unwrap());
    competition.outcome_broadcasted_at = Some(NOW);
    (competition, entries)
}

fn pay(entry: &mut UserEntry, key: u8) {
    entry.paid_out_at = Some(NOW);
    entry.ephemeral_privatekey = Some(hex::encode([key; 32]));
}

/// Do the steps as far as they can be done, and tell what was broadcast and recorded.
fn run(
    competition: &mut Competition,
    entries: &Vec<UserEntry>,
    steps: Vec<SettlementStep>,
    ticket: Option<Ticket>,
) -> (usize, Vec<String>) {
    let mut broadcasts = 0;
    let mut done = Vec::new();
    for step in steps {
        let built = build_step(
            &step,
            competition.signed_contract.as_ref().unwrap(),
            Outcome::Attestation(0),
            entries,
            &ticket,
            &vec![9; 32],
            250,
        );
        let built = match built {
            Ok(built) => built,
            Err(error) => {
                done.push(format!("{error:?}"));
                break;
            },
        };
        if is_broadcast(&step) {
            broadcasts += 1;
            let _: bitcoin::Transaction = deserialize(&built.unwrap().raw).unwrap();
        }
        step_was_done(competition, &step, NOW + 1);
        done.push(match step {
            SettlementStep::Close { .. } => "close".to_string(),
            SettlementStep::Split(winner) => format!("split {}", winner.player_index),
            SettlementStep::CloseShare(winner) => format!("close {}", winner.player_index),
            SettlementStep::MarkClosed(winner) => format!("closed {}", winner.player_index),
            SettlementStep::ReclaimShare(winner) => format!("reclaim {}", winner.player_index),
            SettlementStep::MarkReclaimed(winner) => format!("reclaimed {}", winner.player_index),
            SettlementStep::FinishDelta | SettlementStep::FinishReclaims => "done".to_string(),
        });
    }
    (broadcasts, done)
}

#[test]
fn paid_winners_are_closed_with_one_transaction() {
    let (mut competition, mut entries) = published();
    pay(&mut entries[0], 1);
    pay(&mut entries[1], 3);
    let waiting = delta_publication(&competition, 1_071, Some(1_000), &entries).unwrap();
    assert!(waiting.is_empty());
    for broadcasts in [1, 0] {
        let steps = delta_publication(&competition, 1_072, Some(1_000), &entries).unwrap();
        let (sent, done) = run(&mut competition, &entries, steps, None);
        assert_eq!((sent, done.join(", ")), (broadcasts, "close, closed 0, closed 1, done".to_string()));
        assert_eq!(competition.delta_broadcasted_at, Some(NOW + 1), "it is published once");
    }
}

#[test]
fn a_winner_who_was_not_paid_is_left_their_share() {
    let (mut competition, mut entries) = published();
    pay(&mut entries[0], 1);
    let steps = delta_publication(&competition, 1_144, Some(1_000), &entries).unwrap();
    let (sent, done) = run(&mut competition, &entries, steps, None);
    assert_eq!((sent, done), (0, vec!["NoTicket".to_string()]));
    assert_eq!(competition.delta_broadcasted_at, None);

    let unlocked = || Some(ticket(hex::encode([11; 32])));
    let steps = delta_publication(&competition, 1_144, Some(1_000), &entries).unwrap();
    let (sent, done) = run(&mut competition, &entries, steps, unlocked());
    assert_eq!((sent, done.join(", ")), (2, "split 0, close 0, closed 0, done".to_string()));
    assert_eq!(competition.delta_broadcasted_at, Some(NOW + 1));
    // What was split is not split again.
    entries[0].sellback_broadcasted_at = Some(NOW);
    let steps = delta_publication(&competition, 1_144, Some(1_000), &entries).unwrap();
    let (sent, done) = run(&mut competition, &entries, steps, unlocked());
    assert_eq!((sent, done.join(", ")), (0, "done".to_string()));
}

#[test]
fn what_nobody_claims_is_reclaimed_in_the_end() {
    let (mut competition, mut entries) = published();
    pay(&mut entries[1], 3);
    let waiting = reclaim_publication(&competition, 1_143, Some(1_000), &entries).unwrap();
    assert!(waiting.is_empty());
    let steps = reclaim_publication(&competition, 1_144, Some(1_000), &entries).unwrap();
    let (sent, done) = run(&mut competition, &entries, steps, None);
    assert_eq!((sent, done.join(", ")), (1, "reclaim 0, reclaimed 0, done".to_string()));
    assert_eq!(competition.completed_at, Some(NOW + 1));
}
