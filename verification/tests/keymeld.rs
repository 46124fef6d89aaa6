use competitions::binding::{
    bind_automatic_contract, expected_participants, BindingError, BindingTerms, ContractBinding,
    EntryConsent, Participant,
};
use competitions::entries::{AddEventEntry, RegistrationContext, UserEntry};
use competitions::identity::{public_key, public_key_of, validate_coordinator_metadata, Ownership};
use competitions::ids::uuid_version;
use competitions::roster::{
    check_roster_signatures, compute_dlc_subset_definitions, expected_roster, roster_key,
    subset_definitions, verify_accepted_keymeld_roster, KeygenSession, ParticipantRoster,
    RosterError, SubsetDefinition,
};
use dlctix::secp::Scalar;
use std::collections::BTreeMap;

const COORDINATOR: u128 = 50;
const PLAYER: u128 = 60;

fn key(byte: u8) -> Vec<u8> {
    Scalar::from_slice(&[byte; 32]).unwrap().base_point_mul().serialize().to_vec()
}

fn context(user_id: u128, byte: u8) -> RegistrationContext {
    RegistrationContext {
        keygen_session_id: "session".to_string(),
        user_id,
        manifest_hash: hex::encode([6; 32]),
        enclave_id: 1,
        enclave_key_epoch: 1,
        public_key: hex::encode(key(byte)),
        auth_pubkey: hex::encode(key(byte + 20)),
        require_signing_approval: false,
    }
}

fn entry(byte: u8, context: Option<RegistrationContext>) -> UserEntry {
    UserEntry {
        id: 90,
        event_id: 1,
        ticket_id: PLAYER,
        pubkey: "player".to_string(),
        ephemeral_pubkey: hex::encode(key(byte)),
        ephemeral_privatekey: None,
        payout_hash: hex::encode([1; 32]),
        payout_preimage: None,
        encrypted_keymeld_private_key: None,
        keymeld_auth_pubkey: None,
        keymeld_registration_context: context,
        public_nonces: None,
        partial_signatures: None,
        funding_psbt_base64: None,
        entry_submission: AddEventEntry { id: 90, event_id: 1, expected_observations: vec![] },
        signed_at: None,
        paid_at: None,
        paid_out_at: None,
        sellback_broadcasted_at: None,
        reclaimed_broadcasted_at: None,
    }
}

struct Fixture {
    session: KeygenSession,
    roster: ParticipantRoster,
    keys: BTreeMap<u128, Vec<u8>>,
    contexts: BTreeMap<u128, RegistrationContext>,
}

impl Fixture {
    fn verify(&self) -> Result<(), RosterError> {
        verify_accepted_keymeld_roster(&self.session, &self.roster, &self.keys, &self.contexts, 1)
    }
}

fn fixture() -> Fixture {
    let (keys, contexts) =
        expected_roster(&vec![entry(7, Some(context(PLAYER, 7)))], COORDINATOR, key(1)).unwrap();
    let subsets = compute_dlc_subset_definitions(COORDINATOR, &vec![PLAYER], 1);
    let aggregate = key(11);
    Fixture {
        session: KeygenSession {
            coordinator_user_id: COORDINATOR,
            user_enclave_assignments: BTreeMap::from([(COORDINATOR, 1), (PLAYER, 1)]),
            recipient_public_keys: BTreeMap::from([(1, key(8))]),
            outcome_subset_ids: subsets.outcome_subset_ids,
            aggregate_key: aggregate.clone(),
        },
        roster: ParticipantRoster {
            participants: keys.clone(),
            registrations: BTreeMap::from([
                (COORDINATOR, context(COORDINATOR, 1)),
                (PLAYER, context(PLAYER, 7)),
            ]),
            subset_definitions: subsets.definitions,
            aggregate_public_key: aggregate,
            tweaked: false,
        },
        keys,
        contexts,
    }
}

#[test]
fn funding_roster_accepts_only_the_paid_entry_keys_and_contexts() {
    let mut fixture = fixture();
    assert_eq!(fixture.verify(), Ok(()));
    fixture.keys.insert(PLAYER, key(10));
    assert_eq!(fixture.verify(), Err(RosterError::ParticipantsDiffer));
    fixture.keys = fixture.roster.participants.clone();
    assert_eq!(fixture.verify(), Ok(()));
    fixture.contexts.get_mut(&PLAYER).unwrap().enclave_key_epoch += 1;
    assert_eq!(fixture.verify(), Err(RosterError::RegistrationDiffers));
}

#[test]
fn funding_roster_rejects_substituted_aggregates_and_outcome_assignments() {
    let mut fixture = fixture();
    fixture.roster.aggregate_public_key = key(10);
    assert_eq!(fixture.verify(), Err(RosterError::AggregateDiffers));
    fixture.session.aggregate_key = vec![];
    assert_eq!(fixture.verify(), Ok(()));
    let mut fixture = self::fixture();
    fixture.session.outcome_subset_ids.insert(0, 999);
    assert_eq!(fixture.verify(), Err(RosterError::MissingSubset(0)));
}

#[test]
fn a_roster_signs_for_every_outcome_and_without_asking() {
    let mut tweaked = fixture();
    tweaked.roster.tweaked = true;
    assert_eq!(tweaked.verify(), Err(RosterError::ParticipantsDiffer));

    let mut asking = fixture();
    asking.roster.registrations.get_mut(&COORDINATOR).unwrap().require_signing_approval = true;
    assert_eq!(asking.verify(), Err(RosterError::RegistrationDiffers));

    let mut moved = fixture();
    moved.session.user_enclave_assignments.insert(PLAYER, 2);
    assert_eq!(moved.verify(), Err(RosterError::RegistrationDiffers));

    let mut fewer = fixture();
    fewer.roster.subset_definitions.pop();
    assert_eq!(fewer.verify(), Err(RosterError::SubsetsDiffer));

    let mut renumbered = fixture();
    let id = renumbered.session.outcome_subset_ids.remove(&0).unwrap();
    renumbered.session.outcome_subset_ids.insert(9, id);
    assert_eq!(renumbered.verify(), Err(RosterError::MissingOutcomeSubset(0)));

    let mut others = fixture();
    let id = others.session.outcome_subset_ids[&0];
    for subset in others.roster.subset_definitions.iter_mut() {
        if subset.subset_id == id {
            *subset = SubsetDefinition { subset_id: id, participants: vec![PLAYER] };
        }
    }
    assert_eq!(others.verify(), Err(RosterError::SignersDiffer(0)));
}

#[test]
fn a_roster_is_expected_from_the_entries_alone() {
    let no_context = expected_roster(&vec![entry(7, None)], COORDINATOR, key(1));
    assert_eq!(no_context.unwrap_err(), RosterError::MissingContext(90));
    let mut bad_key = entry(7, Some(context(PLAYER, 7)));
    bad_key.ephemeral_pubkey = "nope".to_string();
    let no_key = expected_roster(&vec![bad_key], COORDINATOR, key(1));
    assert_eq!(no_key.unwrap_err(), RosterError::InvalidEntryKey(90));
    let none = expected_roster(&vec![], COORDINATOR, key(1)).unwrap();
    assert_eq!(none.0, BTreeMap::from([(COORDINATOR, key(1))]));
    assert!(none.1.is_empty());
}

#[test]
fn a_roster_is_checked_with_the_coordinators_enclave_key() {
    let mut session = fixture().session;
    assert_eq!(roster_key(&session), Ok(&key(8)));
    session.recipient_public_keys.clear();
    assert_eq!(roster_key(&session), Err(RosterError::NoEnclaveKey));
    session.user_enclave_assignments.clear();
    assert_eq!(roster_key(&session), Err(RosterError::NoEnclave));
    assert_eq!(check_roster_signatures(true, true, true), Ok(()));
    assert_eq!(check_roster_signatures(false, true, true), Err(RosterError::BadSignature));
    assert_eq!(check_roster_signatures(true, false, true), Err(RosterError::BadRegistrations));
    assert_eq!(check_roster_signatures(true, true, false), Err(RosterError::BadAggregates));
}

#[test]
fn subsets_hold_the_coordinator_and_the_winners() {
    // Two players, one place: either wins, or everyone is refunded.
    let info = subset_definitions(COORDINATOR, &vec![60, 61], 1, &vec![1, 2, 3]);
    let signers: Vec<Vec<u128>> =
        info.definitions.iter().map(|subset| subset.participants.clone()).collect();
    assert_eq!(
        signers,
        vec![vec![COORDINATOR, 60], vec![COORDINATOR, 61], vec![COORDINATOR, 60, 61]]
    );
    assert_eq!(info.outcome_subset_ids, BTreeMap::from([(0, 1), (1, 2), (2, 3)]));

    let drawn = compute_dlc_subset_definitions(COORDINATOR, &vec![60, 61], 1);
    for (i, subset) in drawn.definitions.iter().enumerate() {
        assert_eq!(subset.participants, signers[i]);
        assert_eq!(drawn.outcome_subset_ids[&i], subset.subset_id);
        assert_eq!(uuid_version(subset.subset_id), 7);
    }
    // Each outcome has an id of its own.
    let drawn = compute_dlc_subset_definitions(COORDINATOR, &vec![60, 61, 62, 63], 3);
    assert_eq!(drawn.definitions.len(), 25);
    for two in drawn.definitions.windows(2) {
        assert!(two[0].subset_id < two[1].subset_id);
    }
}

fn consent(agrees: bool) -> EntryConsent {
    EntryConsent {
        entry_id: 90,
        ticket_id: PLAYER,
        has_policy: true,
        context: Some(context(PLAYER, 7)),
        consent_digest: Some("policy".to_string()),
        consent_agrees: agrees,
    }
}

#[test]
fn every_player_consents_before_a_contract_is_bound() {
    let participants = expected_participants(&vec![consent(true)]).unwrap();
    assert_eq!(participants.len(), 1);
    assert_eq!(participants[0].user_id, PLAYER);
    assert_eq!(participants[0].policy_digest, "policy");
    let refused = |change: fn(&mut EntryConsent)| {
        let mut changed = consent(true);
        change(&mut changed);
        expected_participants(&vec![changed]).unwrap_err()
    };
    assert_eq!(refused(|consent| consent.has_policy = false), BindingError::NoPolicy(90));
    assert_eq!(refused(|consent| consent.context = None), BindingError::NoContext(90));
    assert_eq!(refused(|consent| consent.consent_digest = None), BindingError::NoConsent(90));
    assert_eq!(refused(|consent| consent.consent_agrees = false), BindingError::WrongConsent(90));
    assert_eq!(
        expected_participants(&vec![consent(true), consent(true)]).unwrap_err(),
        BindingError::Duplicate(PLAYER)
    );
}

fn terms() -> BindingTerms {
    BindingTerms {
        keygen_session_id: "session".to_string(),
        policy_set_digest: "policies".to_string(),
        contract_digest: "contract".to_string(),
    }
}

fn bound() -> ContractBinding {
    ContractBinding {
        user_id: PLAYER,
        keygen_session_id: "session".to_string(),
        enclave_id: 1,
        enclave_key_epoch: 1,
        policy_set_digest: "policies".to_string(),
        contract_digest: "contract".to_string(),
        policy_digest: "policy".to_string(),
        signature_holds: true,
    }
}

fn participants() -> Vec<Participant> {
    expected_participants(&vec![consent(true)]).unwrap()
}

fn bind(bindings: Vec<ContractBinding>) -> Result<(), BindingError> {
    bind_automatic_contract(&bindings, &participants(), &fixture().session, &terms())
}

#[test]
fn a_contract_is_bound_by_each_player_once() {
    assert_eq!(bind(vec![bound()]), Ok(()));
    assert_eq!(bind(vec![]), Err(BindingError::Incomplete));
    assert_eq!(bind(vec![bound(), bound()]), Err(BindingError::Differs(PLAYER)));
    let refused = |change: fn(&mut ContractBinding)| {
        let mut changed = bound();
        change(&mut changed);
        bind(vec![changed]).unwrap_err()
    };
    assert_eq!(refused(|binding| binding.user_id = 7), BindingError::Unexpected(7));
    assert_eq!(
        refused(|binding| binding.signature_holds = false),
        BindingError::BadSignature(PLAYER)
    );
    assert_eq!(
        refused(|binding| binding.contract_digest = "other".to_string()),
        BindingError::Differs(PLAYER)
    );
    assert_eq!(refused(|binding| binding.enclave_key_epoch = 2), BindingError::Differs(PLAYER));
    let mut keyless = fixture().session;
    keyless.recipient_public_keys.clear();
    assert_eq!(
        bind_automatic_contract(&vec![bound()], &participants(), &keyless, &terms()),
        Err(BindingError::NoEnclaveKey(1))
    );
}

#[test]
fn a_database_belongs_to_the_coordinator_that_opened_it_first() {
    let point = |key: u8| {
        Scalar::from_slice(&[key; 32]).unwrap().base_point_mul().serialize().to_vec()
    };
    let x_only = |key: u8| point(key)[1..].to_vec();
    assert_eq!(public_key_of(&vec![1; 32]), Some(point(1)));
    assert_eq!(public_key_of(&vec![0; 32]), None);
    assert_eq!(public_key_of(&vec![1; 31]), None);
    assert_eq!(public_key(&point(1)), hex::encode(x_only(1)));
    assert_eq!(public_key(&point(1)).len(), 64);
    assert_eq!(validate_coordinator_metadata(&None, &point(1)), Ownership::Unclaimed);
    assert_eq!(validate_coordinator_metadata(&Some(x_only(1)), &point(1)), Ownership::Own);
    assert_eq!(validate_coordinator_metadata(&Some(x_only(3)), &point(1)), Ownership::Foreign);
}
