use bitcoin::bip32::{ChildNumber, DerivationPath, Fingerprint, Xpriv, Xpub};
use bitcoin::secp256k1::{Message, Secp256k1, SecretKey};
use bitcoin::{Amount, Psbt, ScriptBuf, TxIn, TxOut, Witness};
use competitions::competition::{Competition, CreateEvent};
use competitions::contract::{
    ContractParameters, EventAnnouncement, OutcomePayouts, Player, SigMap, Transaction,
};
use competitions::contracting::ContractError;
use competitions::entering::AddEntry;
use competitions::entries::UserEntry;
use competitions::funding::{
    check_funding_inputs, check_signed_psbt, find_funding_outpoint, funding_was_broadcast,
    funding_was_finalized, funding_was_reserved, InputIssue,
};
use competitions::lifecycle::Coordinator;
use competitions::psbt::FundingInput;
use competitions::signing::SigningError;
use competitions::terms::funding_script;
use dlctix::secp::Scalar;
use std::collections::BTreeMap;
use std::str::FromStr;

const NOW: i128 = 1_800_000_000_000_000_000;

fn point(byte: u8) -> Vec<u8> {
    Scalar::from_slice(&[byte; 32]).unwrap().base_point_mul().serialize().to_vec()
}

fn parameters() -> ContractParameters {
    ContractParameters {
        market_maker: point(9),
        players: [1u8, 3]
            .into_iter()
            .map(|key| Player {
                pubkey: point(key),
                ticket_hash: vec![key; 32],
                payout_hash: vec![key; 32],
            })
            .collect(),
        event: EventAnnouncement { locking_points: vec![point(10)], expiry: None },
        outcome_payouts: OutcomePayouts {
            attestations: BTreeMap::from([(0, BTreeMap::from([(0, 60), (1, 40)]))]),
            expiry: None,
        },
        fee_rate: 250,
        funding_value: 100_000,
        relative_locktime_block_delta: 72,
    }
}

fn competition() -> Competition {
    let mut competition = Competition::new(
        CreateEvent {
            id: 1,
            signing_date: NOW,
            start_observation_date: NOW,
            end_observation_date: NOW,
            locations: vec![],
            number_of_values_per_entry: 3,
            number_of_places_win: 2,
            total_allowed_entries: 2,
            entry_fee: 50_000,
            coordinator_fee_percentage: 0,
            total_competition_pool: 100_000,
            relative_locktime_block_delta: None,
            unlisted: false,
        },
        NOW,
    );
    competition.total_entries = 2;
    competition.contract_parameters = Some(parameters());
    competition
}

fn coordinator(escrow_enabled: bool) -> Coordinator {
    Coordinator {
        escrow_enabled,
        keymeld_enabled: false,
        required_confirmations: 1,
        invoice_settlement_confirmations: 1,
        relative_locktime_block_delta: 144,
        automatic_payouts: false,
        automatic_payout_max_fee_rate: 0,
        tolerated_errors: 3,
        kept_settlement_errors: 5,
    }
}

/// A funding transaction with two escrows of 51000 satoshis, and change before the contract's output.
fn psbt() -> Psbt {
    let output = |value: u64, script: Vec<u8>| TxOut {
        value: Amount::from_sat(value),
        script_pubkey: ScriptBuf::from_bytes(script),
    };
    let mut second = TxIn::default();
    second.previous_output.vout = 0;
    let unsigned = bitcoin::Transaction {
        version: bitcoin::transaction::Version::TWO,
        lock_time: bitcoin::absolute::LockTime::ZERO,
        input: vec![TxIn::default(), second],
        output: vec![
            output(1_500, vec![0x51]),
            output(100_000, funding_script(&parameters()).unwrap()),
        ],
    };
    let mut psbt = Psbt::from_unsigned_tx(unsigned).unwrap();
    for input in psbt.inputs.iter_mut() {
        input.witness_utxo = Some(output(51_000, vec![0x51]));
        input.witness_script = Some(ScriptBuf::from_bytes(vec![0x51]));
    }
    psbt
}

/// Sign an input of the transaction with a key.
fn sign(mut psbt: Psbt, input: usize, key: u8) -> Psbt {
    let secp = Secp256k1::new();
    let secret = SecretKey::from_slice(&[key; 32]).unwrap();
    let signature = bitcoin::ecdsa::Signature::sighash_all(
        secp.sign_ecdsa(&Message::from_digest([key; 32]), &secret),
    );
    let public = bitcoin::PublicKey::new(secret.public_key(&secp));
    psbt.inputs[input].partial_sigs.insert(public, signature);
    psbt
}

fn entry(key: u8, psbt: &Psbt) -> UserEntry {
    let mut entry = AddEntry {
        id: 100 + key as u128,
        ticket_id: 200 + key as u128,
        event_id: 1,
        ephemeral_pubkey: hex::encode(point(key)),
        payout_hash: hex::encode([key; 32]),
        expected_observations: vec![],
        encrypted_keymeld_private_key: None,
        keymeld_auth_pubkey: None,
        keymeld_registration_context: None,
    }
    .into_user_entry("owner".to_string());
    entry.partial_signatures = Some(SigMap::Empty);
    entry.funding_psbt_base64 = Some(psbt.to_string());
    entry.signed_at = Some(NOW);
    entry
}

#[test]
fn a_reserved_transaction_funds_the_contract() {
    let mut competition = competition();
    let text = psbt().to_string();
    let outpoint = find_funding_outpoint(&competition, &text).unwrap();
    assert_eq!(outpoint.vout, 1);
    let txid = psbt().unsigned_tx.compute_txid();
    let bytes: &[u8] = txid.as_ref();
    assert_eq!(outpoint.txid, bytes.to_vec());

    assert_eq!(
        funding_was_reserved(&mut competition, "nope".to_string()).map(|kept| kept.vout),
        Err(ContractError::InvalidPsbt)
    );
    let mut elsewhere = psbt();
    elsewhere.unsigned_tx.output.pop();
    elsewhere.outputs.pop();
    assert_eq!(
        funding_was_reserved(&mut competition, elsewhere.to_string()).map(|kept| kept.vout),
        Err(ContractError::NoFundingOutput)
    );
    assert!(competition.funding_psbt_base64.is_none());
    let kept = funding_was_reserved(&mut competition, text.clone()).unwrap();
    assert_eq!((kept.txid, kept.vout), (outpoint.txid, 1));
    assert_eq!(competition.funding_psbt_base64.as_ref(), Some(&text));
    assert_eq!(competition.funding_outpoint.as_ref().unwrap().vout, 1);
    // What was kept first stays.
    let later = sign(psbt(), 0, 5).to_string();
    assert!(funding_was_reserved(&mut competition, later).is_ok());
    assert_eq!(competition.funding_psbt_base64, Some(text));
    // It is the pool that the contract is paid, whatever the terms that were kept say.
    competition.contract_parameters.as_mut().unwrap().funding_value = 99_999;
    let script = funding_script(competition.contract_parameters.as_ref().unwrap()).unwrap();
    let mut paying = psbt();
    paying.unsigned_tx.output[1].script_pubkey = ScriptBuf::from_bytes(script);
    assert_eq!(find_funding_outpoint(&competition, &paying.to_string()).unwrap().vout, 1);
    competition.event_submission.total_competition_pool = 100_001;
    assert_eq!(
        find_funding_outpoint(&competition, &paying.to_string()).unwrap_err(),
        ContractError::NoFundingOutput
    );
    competition.contract_parameters = None;
    assert_eq!(
        find_funding_outpoint(&competition, &psbt().to_string()).unwrap_err(),
        ContractError::InvalidTerms
    );
}

#[test]
fn every_players_signatures_are_merged() {
    let mut competition = competition();
    let entries = vec![entry(1, &sign(psbt(), 0, 1)), entry(3, &sign(psbt(), 1, 3))];
    let merge = |competition: &Competition, entries: &Vec<UserEntry>| {
        coordinator(true).merge_funding_psbts(competition, entries)
    };
    assert_eq!(merge(&competition, &entries), Err(SigningError::NoFundingPsbt));
    competition.funding_psbt_base64 = Some("nope".to_string());
    assert_eq!(merge(&competition, &entries), Err(SigningError::InvalidPsbt));
    competition.funding_psbt_base64 = Some(psbt().to_string());
    let merged = merge(&competition, &entries).unwrap();
    assert_eq!(merged, sign(sign(psbt(), 0, 1), 1, 3).to_string());
    assert_eq!(
        check_signed_psbt(&merged).unwrap(),
        vec![InputIssue::EscrowSignatures(0, 1), InputIssue::EscrowSignatures(1, 1)]
    );
    assert_eq!(check_signed_psbt(&"nope".to_string()), Err(SigningError::InvalidPsbt));

    // A transaction that is another's adds nothing, and one that cannot be read fails.
    let mut other = sign(psbt(), 1, 3);
    other.unsigned_tx.output[0].value = Amount::from_sat(1);
    let mixed = vec![entry(1, &sign(psbt(), 0, 1)), entry(3, &other)];
    assert_eq!(merge(&competition, &mixed).unwrap(), sign(psbt(), 0, 1).to_string());
    let mut unreadable = vec![entry(1, &psbt()), entry(3, &psbt())];
    unreadable[1].funding_psbt_base64 = Some("nope".to_string());
    assert_eq!(merge(&competition, &unreadable), Err(SigningError::InvalidPsbt));

    // Everyone has to have sent theirs.
    let mut unsigned = vec![entry(1, &psbt()), entry(3, &psbt())];
    unsigned[1].signed_at = None;
    assert_eq!(
        merge(&competition, &unsigned),
        Err(SigningError::Missing { expected: 2, got: 1 })
    );
    assert_eq!(
        merge(&competition, &vec![entry(1, &psbt())]),
        Err(SigningError::NotEnoughSignatures)
    );
    // Without escrows the coordinator funds the contract alone.
    assert_eq!(
        coordinator(false).merge_funding_psbts(&competition, &vec![]),
        Ok(psbt().to_string())
    );
}

#[test]
fn the_first_key_fills_what_two_players_give() {
    let mut competition = competition();
    let bare = || {
        let mut bare = psbt();
        bare.inputs[0].witness_script = None;
        bare
    };
    let with_script = |byte: u8| {
        let mut scripted = bare();
        scripted.inputs[0].witness_script = Some(ScriptBuf::from_bytes(vec![byte]));
        scripted
    };
    competition.funding_psbt_base64 = Some(bare().to_string());
    let (low, high) = if point(1) < point(3) { (1, 3) } else { (3, 1) };
    for order in [[low, high], [high, low]] {
        let entries = order.into_iter().map(|key| entry(key, &with_script(key))).collect();
        let merged = coordinator(true).merge_funding_psbts(&competition, &entries).unwrap();
        assert_eq!(
            Psbt::from_str(&merged).unwrap().inputs[0].witness_script,
            Some(ScriptBuf::from_bytes(vec![low]))
        );
    }
}

#[test]
fn extended_keys_from_elsewhere_are_left_out() {
    let secp = Secp256k1::new();
    let master = Xpriv::new_master(bitcoin::NetworkKind::Test, &[7; 32]).unwrap();
    let xpub = Xpub::from_priv(&secp, &master);
    let from = |path: Vec<u32>, psbt: Psbt| {
        let path: Vec<ChildNumber> = path.into_iter().map(ChildNumber::from).collect();
        let mut named = psbt;
        named.xpub.insert(xpub, (Fingerprint::default(), DerivationPath::from(path)));
        named
    };
    let mut competition = competition();
    competition.total_entries = 1;
    competition.funding_psbt_base64 = Some(from(vec![1, 2], psbt()).to_string());
    let merged = |path: Vec<u32>| {
        let entries = vec![entry(1, &from(path, sign(psbt(), 0, 1)))];
        coordinator(true).merge_funding_psbts(&competition, &entries).unwrap()
    };
    assert_eq!(merged(vec![1, 2]), from(vec![1, 2], sign(psbt(), 0, 1)).to_string());
    assert_eq!(merged(vec![2]), from(vec![1, 2], sign(psbt(), 0, 1)).to_string());
    assert_eq!(merged(vec![9, 1, 2]), from(vec![9, 1, 2], sign(psbt(), 0, 1)).to_string());
    assert_eq!(merged(vec![3, 4]), from(vec![1, 2], psbt()).to_string());
    assert_eq!(merged(vec![1]), from(vec![1, 2], psbt()).to_string());
}

#[test]
fn a_finalized_transaction_is_taken_out() {
    let mut signed = sign(sign(sign(sign(psbt(), 0, 1), 1, 3), 0, 9), 1, 9);
    assert!(check_signed_psbt(&signed.to_string()).unwrap().is_empty());
    assert_eq!(
        funding_was_finalized(&signed.to_string(), false).unwrap_err(),
        SigningError::NotFinalized
    );
    for input in signed.inputs.iter_mut() {
        input.final_script_witness = Some(Witness::from_slice(&[vec![1u8]]));
    }
    let transaction = funding_was_finalized(&signed.to_string(), true).unwrap();
    let expected = signed.clone().extract_tx().unwrap();
    assert_eq!(transaction.raw, bitcoin::consensus::encode::serialize(&expected));
    assert_eq!(
        funding_was_finalized(&"nope".to_string(), true).unwrap_err(),
        SigningError::InvalidPsbt
    );
    let refused = |change: fn(&mut Psbt)| {
        let mut changed = signed.clone();
        change(&mut changed);
        funding_was_finalized(&changed.to_string(), true).unwrap_err()
    };
    // The value of an input is not told.
    assert_eq!(refused(|psbt| psbt.inputs[0].witness_utxo = None), SigningError::NotExtracted);
    // An input spends an output that there is not.
    assert_eq!(
        refused(|psbt| {
            let mut spent = psbt.unsigned_tx.clone();
            spent.output.clear();
            spent.output.push(TxOut { value: Amount::ZERO, script_pubkey: ScriptBuf::new() });
            psbt.inputs[1].witness_utxo = None;
            psbt.inputs[1].non_witness_utxo = Some(spent);
            psbt.unsigned_tx.input[1].previous_output.vout = 1;
        }),
        SigningError::NotExtracted
    );
}

#[test]
fn funding_is_sent_once_every_input_is_signed() {
    let input = |finalized, escrow, partial_sigs, tap_key_sig| FundingInput {
        finalized,
        escrow,
        partial_sigs,
        tap_key_sig,
        witness_utxo: true,
        utxo_outputs: None,
        vout: 0,
    };
    let inputs = vec![
        input(true, true, 0, false),
        input(false, true, 1, false),
        input(false, true, 2, false),
        input(false, false, 0, false),
        input(false, false, 0, true),
        input(false, false, 1, false),
    ];
    assert_eq!(
        check_funding_inputs(&inputs),
        vec![InputIssue::EscrowSignatures(1, 1), InputIssue::Unsigned(3)]
    );
    let mut competition = competition();
    funding_was_broadcast(&mut competition, Transaction { raw: vec![1] }, NOW);
    funding_was_broadcast(&mut competition, Transaction { raw: vec![2] }, NOW + 1);
    assert_eq!(competition.funding_transaction.as_ref().unwrap().raw, vec![1]);
    assert_eq!(competition.funding_broadcasted_at, Some(NOW));
}
