use bitcoin::{Amount, Psbt, ScriptBuf, TxIn, TxOut};
use competitions::building::{check_escrow_inputs, psbt_was_built, BuildError, BuildStep};
use competitions::competition::{Competition, CreateEvent};
use competitions::contract::{EventAnnouncement, SigMap};
use competitions::contracting::ContractError;
use competitions::entering::AddEntry;
use competitions::entries::{RegistrationContext, Ticket, UserEntry};
use competitions::lifecycle::Coordinator;
use competitions::payouts::PayoutsError;
use competitions::signing::SigningError;
use dlctix::secp::Scalar;
use std::collections::{BTreeMap, HashMap};

const NOW: i128 = 1_800_000_000_000_000_000;
const DAY_LATER: u64 = 1_800_086_400;

fn key() -> Vec<u8> {
    vec![9; 32]
}

fn point(byte: u8) -> Vec<u8> {
    Scalar::from_slice(&[byte; 32]).unwrap().base_point_mul().serialize().to_vec()
}

fn hash(byte: u8) -> String {
    hex::encode(dlctix::hashlock::sha256(&[byte; 32]))
}

fn coordinator(keymeld_enabled: bool) -> Coordinator {
    Coordinator {
        escrow_enabled: false,
        keymeld_enabled,
        required_confirmations: 1,
        invoice_settlement_confirmations: 1,
        relative_locktime_block_delta: 144,
        automatic_payouts: false,
        automatic_payout_max_fee_rate: 0,
        tolerated_errors: 3,
        kept_settlement_errors: 5,
    }
}

/// A competition of two players for one place, so that the oracle attests to one of three outcomes.
fn competition(pool: usize) -> Competition {
    let event = CreateEvent {
        id: 1,
        signing_date: NOW,
        start_observation_date: NOW,
        end_observation_date: NOW,
        locations: vec![],
        number_of_values_per_entry: 1,
        number_of_places_win: 1,
        total_allowed_entries: 2,
        entry_fee: 50_000,
        coordinator_fee_percentage: 0,
        total_competition_pool: pool,
        relative_locktime_block_delta: None,
        unlisted: false,
    };
    let mut competition = Competition::new(event, NOW);
    competition.event_announcement = Some(EventAnnouncement {
        locking_points: vec![point(10), point(11), point(12)],
        expiry: Some(1_700_000_000),
    });
    competition
}

fn entry(key: u8) -> UserEntry {
    let context = RegistrationContext {
        keygen_session_id: "session".to_string(),
        user_id: 200 + key as u128,
        manifest_hash: "manifest".to_string(),
        enclave_id: 1,
        enclave_key_epoch: 1,
        public_key: hex::encode(point(key)),
        auth_pubkey: "auth".to_string(),
        require_signing_approval: false,
    };
    AddEntry {
        id: 100 + key as u128,
        ticket_id: 200 + key as u128,
        event_id: 1,
        ephemeral_pubkey: hex::encode(point(key)),
        payout_hash: hash(key + 1),
        expected_observations: vec![],
        encrypted_keymeld_private_key: Some(format!("sealed {key}")),
        keymeld_auth_pubkey: Some("auth".to_string()),
        keymeld_registration_context: Some(context),
    }
    .into_user_entry("owner".to_string())
}

fn ticket(key: u8) -> Ticket {
    Ticket {
        id: 200 + key as u128,
        competition_id: 1,
        entry_id: Some(100 + key as u128),
        encrypted_preimage: hex::encode([key + 10; 32]),
        hash: hash(key + 10),
        payment_request: None,
        invoice_expires_at: None,
        expiry: NOW,
        ephemeral_pubkey: None,
        reserved_by: None,
        reserved_at: None,
        paid_at: Some(NOW),
        settled_at: None,
        escrow_transaction: None,
    }
}

fn tickets() -> HashMap<u128, Ticket> {
    HashMap::from([(101, ticket(1)), (103, ticket(3))])
}

/// A transaction that pays an output.
fn paying(script: &[u8], value: u64) -> String {
    let unsigned = bitcoin::Transaction {
        version: bitcoin::transaction::Version::TWO,
        lock_time: bitcoin::absolute::LockTime::ZERO,
        input: vec![TxIn::default()],
        output: vec![TxOut {
            value: Amount::from_sat(value),
            script_pubkey: ScriptBuf::from_bytes(script.to_vec()),
        }],
    };
    Psbt::from_unsigned_tx(unsigned).unwrap().to_string()
}

/// Fix the terms, and have a funding transaction built and its inputs asked for.
fn funded(coordinator: &Coordinator, pool: usize) -> (Competition, Vec<UserEntry>, String) {
    let mut competition = competition(pool);
    let mut entries = vec![entry(3), entry(1)];
    let fixed =
        coordinator.fix_terms(&mut competition, &mut entries, &tickets(), point(9), 250);
    assert_eq!(fixed, Ok(true));
    let step = coordinator.fund_contract(&competition, &entries, &vec![], &vec![], NOW).unwrap();
    let psbt = match step {
        BuildStep::Fund { script_pubkey, value, fee_rate, escrows } => {
            assert_eq!((value, fee_rate, escrows.len()), (pool as u64, 250, 0));
            paying(&script_pubkey, value)
        }
        other => panic!("a funding transaction is to be built, not {other:?}"),
    };
    match psbt_was_built(&competition, psbt.clone(), NOW).unwrap() {
        BuildStep::Reserve { psbt: asked, deadline } => {
            assert_eq!((asked, deadline), (psbt.clone(), DAY_LATER));
        }
        other => panic!("its inputs are to be reserved, not {other:?}"),
    }
    (competition, entries, psbt)
}

#[test]
fn terms_are_fixed_for_the_players_in_the_order_of_their_tickets() {
    let coordinator = coordinator(false);
    let mut competition = competition(100_000);
    let mut entries = vec![entry(3), entry(1)];
    let mut fix = |entries: &mut Vec<UserEntry>, fee_rate: u64| {
        let fixed =
            coordinator.fix_terms(&mut competition, entries, &tickets(), point(9), fee_rate);
        (fixed, competition.contract_parameters.as_ref().unwrap().fee_rate)
    };
    assert_eq!(fix(&mut entries, 250), (Ok(true), 250));
    assert_eq!(entries.iter().map(|entry| entry.ticket_id).collect::<Vec<_>>(), [201, 203]);
    assert_eq!(fix(&mut entries, 500), (Ok(true), 250), "terms that were fixed stay");
    let terms = competition.contract_parameters.as_ref().unwrap();
    assert_eq!(terms.market_maker, point(9));
    let keys: Vec<Vec<u8>> = terms.players.iter().map(|player| player.pubkey.clone()).collect();
    assert_eq!(keys, [point(1), point(3)]);
    assert_eq!(hex::encode(&terms.players[0].ticket_hash), hash(11));
    assert_eq!(hex::encode(&terms.players[0].payout_hash), hash(2));
    assert_eq!(terms.event.locking_points.len(), 3);
    assert_eq!(terms.event.expiry, Some(1_700_000_000));
    assert_eq!(
        terms.outcome_payouts.attestations,
        BTreeMap::from([
            (0, BTreeMap::from([(0, 100)])),
            (1, BTreeMap::from([(1, 100)])),
            (2, BTreeMap::from([(0, 50), (1, 50)])),
        ])
    );
    assert_eq!(terms.outcome_payouts.expiry, Some(BTreeMap::from([(0, 50), (1, 50)])));
    assert_eq!(terms.funding_value, 100_000);
    assert_eq!(terms.relative_locktime_block_delta, 144);
}

#[test]
fn terms_that_cannot_be_fixed_leave_the_competition_alone() {
    let coordinator = coordinator(false);
    let fix = |competition: &mut Competition, mut entries: Vec<UserEntry>| {
        let fixed = coordinator.fix_terms(competition, &mut entries, &tickets(), point(9), 250);
        assert!(competition.contract_parameters.is_none());
        fixed
    };
    let mut unannounced = competition(100_000);
    unannounced.event_announcement = None;
    assert_eq!(
        fix(&mut unannounced, vec![entry(1), entry(3)]),
        Err(BuildError::Contract(ContractError::NoAnnouncement))
    );
    let mut done = competition(100_000);
    done.public_nonces = Some(SigMap::Empty);
    assert_eq!(fix(&mut done, vec![entry(1), entry(3)]), Ok(false));
    // Neither reads the entries.
    assert_eq!(fix(&mut done, vec![]), Ok(false));
    assert_eq!(
        fix(&mut unannounced, vec![]),
        Err(BuildError::Contract(ContractError::NoAnnouncement))
    );

    let mut broken = entry(1);
    broken.ephemeral_pubkey = "no key".to_string();
    assert_eq!(
        fix(&mut competition(100_000), vec![broken, entry(3)]),
        Err(BuildError::Contract(ContractError::InvalidEntryKey(101)))
    );
    // The entry with the key 5 has no ticket, so it has no player to pay.
    assert_eq!(
        fix(&mut competition(100_000), vec![entry(1), entry(5)]),
        Err(BuildError::Payouts(PayoutsError::NoPlayer(hex::encode(point(5)))))
    );
}

#[test]
fn a_contract_is_built_on_the_transaction_that_was_reserved() {
    let coordinator = coordinator(false);
    let (mut competition, entries, psbt) = funded(&coordinator, 100_000);
    let step = coordinator.psbt_was_reserved(
        &mut competition,
        &entries,
        psbt.clone(),
        true,
        &key(),
        NOW + 1,
    );
    assert!(matches!(step, Ok(BuildStep::Finished)));
    assert_eq!(competition.funding_psbt_base64, Some(psbt.clone()));
    assert_eq!(competition.funding_outpoint.as_ref().unwrap().vout, 0);
    assert_eq!(competition.contracted_at, Some(NOW + 1));
    assert!(matches!(&competition.public_nonces, Some(SigMap::Stored(nonces)) if nonces.len() > 2));

    // A contract that was interrupted goes on with the transaction that it kept.
    competition.public_nonces = None;
    match coordinator.fund_contract(&competition, &entries, &vec![], &vec![], NOW).unwrap() {
        BuildStep::Reserve { psbt: kept, deadline } => {
            assert_eq!((kept, deadline), (psbt.clone(), DAY_LATER));
        }
        other => panic!("the kept transaction stays reserved, not {other:?}"),
    }
    let again =
        coordinator.psbt_was_reserved(&mut competition, &entries, psbt.clone(), false, &key(), NOW);
    assert_eq!(again.err(), Some(BuildError::NotReserved), "what is kept is not let go of");

    // Its output is found in the kept transaction again, whether or not it was kept too.
    competition.funding_outpoint = None;
    let step =
        coordinator.psbt_was_reserved(&mut competition, &entries, psbt, true, &key(), NOW + 2);
    assert!(matches!(step, Ok(BuildStep::Finished)));
    assert!(competition.funding_outpoint.is_none());
    assert!(matches!(&competition.public_nonces, Some(SigMap::Stored(nonces)) if nonces.len() > 2));
    assert_eq!(competition.contracted_at, Some(NOW + 2));
    competition.funding_psbt_base64 = Some("no psbt".to_string());
    let step = coordinator.fund_contract(&competition, &entries, &vec![], &vec![], NOW);
    assert_eq!(step.err(), Some(BuildError::Contract(ContractError::InvalidPsbt)));
}

#[test]
fn the_pool_funds_the_contract_whatever_terms_were_kept() {
    let coordinator = coordinator(false);
    let (mut competition, mut entries, _) = funded(&coordinator, 100_000);
    competition.event_submission.total_competition_pool = 120_000;
    let fixed =
        coordinator.fix_terms(&mut competition, &mut entries, &tickets(), point(9), 250);
    assert_eq!(fixed, Ok(true));
    assert_eq!(competition.contract_parameters.as_ref().unwrap().funding_value, 100_000);
    let step = coordinator.fund_contract(&competition, &entries, &vec![], &vec![], NOW).unwrap();
    assert!(matches!(step, BuildStep::Fund { value: 120_000, .. }));
}

#[test]
fn a_funding_transaction_that_is_not_in_order_builds_no_contract() {
    let coordinator = coordinator(false);
    let (mut competition, entries, psbt) = funded(&coordinator, 100_000);
    let mut answer = |psbt: &str, reserved: bool| {
        let step = coordinator.psbt_was_reserved(
            &mut competition,
            &entries,
            psbt.to_string(),
            reserved,
            &key(),
            NOW,
        );
        assert!(competition.funding_psbt_base64.is_none());
        step
    };
    match answer(&psbt, false).unwrap() {
        BuildStep::Release { psbt: released } => assert_eq!(released, psbt),
        other => panic!("inputs picked for this attempt are let go of, not {other:?}"),
    }
    assert_eq!(
        answer("no psbt", true).err(),
        Some(BuildError::Contract(ContractError::InvalidPsbt))
    );
    assert_eq!(
        answer(&paying(&[0x51], 100_000), true).err(),
        Some(BuildError::Contract(ContractError::NoFundingOutput))
    );

    // A pot that its transactions' fees eat up cannot be contracted for.
    let (mut small, entries, psbt) = funded(&coordinator, 400);
    let step = coordinator.psbt_was_reserved(&mut small, &entries, psbt, true, &key(), NOW);
    assert_eq!(step.err(), Some(BuildError::Signing(SigningError::InvalidContract)));
    assert!(small.funding_psbt_base64.is_some() && small.contracted_at.is_none());

    let mut bare = small;
    bare.contract_parameters = None;
    let step = coordinator.fund_contract(&bare, &entries, &vec![], &vec![], NOW);
    assert_eq!(step.err(), Some(BuildError::Contract(ContractError::InvalidTerms)));
}

#[test]
fn keymeld_is_given_every_players_key_before_the_contract_is_built() {
    let coordinator = coordinator(true);
    let (mut competition, mut entries, psbt) = funded(&coordinator, 100_000);
    let mut step =
        coordinator.psbt_was_reserved(&mut competition, &entries, psbt, true, &key(), NOW);
    for expected in [0usize, 1] {
        let index = match step.unwrap() {
            BuildStep::Register { index, data } => {
                assert_eq!(index, expected);
                assert_eq!(data.user_id, entries[index].ticket_id);
                assert_eq!(data.public_key, entries[index].ephemeral_pubkey);
                index
            }
            other => panic!("a key is to be registered, not {other:?}"),
        };
        assert!(competition.public_nonces.is_none());
        let refused = coordinator.participant_was_registered(
            &mut competition,
            &entries,
            index,
            false,
            NOW,
        );
        assert_eq!(refused.err(), Some(BuildError::NotRegistered(entries[index].ticket_id)));
        step = coordinator.participant_was_registered(
            &mut competition,
            &entries,
            index,
            true,
            NOW,
        );
    }
    assert!(matches!(step, Ok(BuildStep::Finished)));
    assert!(matches!(competition.public_nonces, Some(SigMap::Empty)));
    entries[1].encrypted_keymeld_private_key = None;
    let step = coordinator.participant_was_registered(
        &mut competition,
        &entries,
        0,
        true,
        NOW,
    );
    assert_eq!(step.err(), Some(BuildError::Contract(ContractError::MissingSealedKey(103))));
}

#[test]
fn escrows_pay_for_the_contract_only_where_they_are_enabled() {
    let mut coordinator = coordinator(false);
    let (competition, entries, _) = funded(&coordinator, 100_000);
    let tickets = vec![ticket(1), ticket(3)];
    let step = coordinator.fund_contract(&competition, &entries, &tickets, &vec![0, 0], NOW);
    assert!(matches!(step, Ok(BuildStep::Fund { escrows, .. }) if escrows.is_empty()));
    coordinator.escrow_enabled = true;
    let step = coordinator.fund_contract(&competition, &entries, &tickets, &vec![0, 0], NOW);
    let missing = ContractError::MissingEscrow(201);
    assert_eq!(step.err(), Some(BuildError::Contract(missing)));

    // An escrow transaction that pays the ticket at its second output.
    let escrow = bitcoin::Transaction {
        version: bitcoin::transaction::Version::TWO,
        lock_time: bitcoin::absolute::LockTime::ZERO,
        input: vec![TxIn::default()],
        output: [1_000, 50_000]
            .into_iter()
            .map(|value| TxOut {
                value: Amount::from_sat(value),
                script_pubkey: ScriptBuf::from_bytes(vec![0x51]),
            })
            .collect(),
    };
    let raw = hex::encode(bitcoin::consensus::encode::serialize(&escrow));
    let with_escrow = |key: u8| Ticket {
        escrow_transaction: Some(raw.clone()),
        ephemeral_pubkey: Some(hex::encode(point(key))),
        ..ticket(key)
    };
    let tickets = vec![with_escrow(1), with_escrow(3)];
    let checked = check_escrow_inputs(&tickets, &vec![1, 1], &entries).unwrap();
    let told: Vec<(u32, u64)> =
        checked.iter().map(|input| (input.outpoint.vout, input.value)).collect();
    assert_eq!(told, [(1, 50_000), (1, 50_000)]);
    assert_eq!(checked[1].user_pubkey, point(3));
    assert_eq!(
        check_escrow_inputs(&tickets, &vec![1, 2], &entries).err(),
        Some(ContractError::MissingEscrowOutput(203))
    );
    let step = coordinator.fund_contract(&competition, &entries, &tickets, &vec![1, 1], NOW);
    assert!(matches!(step, Ok(BuildStep::Fund { escrows, .. }) if escrows.len() == 2));
}
