use competitions::competition::{Competition, CreateEvent};
use competitions::contract::{ContractParameters, EventAnnouncement, OutPoint, OutcomePayouts, Player};
use competitions::entering::AddEntry;
use competitions::entries::UserEntry;
use competitions::payouts::{
    do_places_weigh, equal_weights, find_player_indices, find_winning_entries_pubkeys,
    generate_payouts, get_percentage_weights, slot_payouts, PayoutsError,
};
use competitions::rankings::{do_rankings_fit, generate_ranking_permutations};
use competitions::signing::nonce_seed;
use competitions::terms::{build_contract, contract_nonces};
use dlctix::secp::Scalar;
use dlctix::{attestation_locking_point, hashlock};
use rand::{RngCore, SeedableRng};
use rand_chacha::ChaCha20Rng;
use std::collections::BTreeMap;

const NOW: i128 = 1_800_000_000_000_000_000;

fn event(places: usize, players: usize) -> CreateEvent {
    CreateEvent {
        id: 1,
        signing_date: NOW,
        start_observation_date: NOW,
        end_observation_date: NOW,
        locations: vec![],
        number_of_values_per_entry: 3,
        number_of_places_win: places,
        total_allowed_entries: players,
        entry_fee: 50_000,
        coordinator_fee_percentage: 0,
        total_competition_pool: players * 50_000,
        relative_locktime_block_delta: Some(72),
        unlisted: false,
    }
}

fn entry(index: usize, competition: &Competition) -> UserEntry {
    let key = Scalar::from_slice(&[index as u8 + 1; 32]).unwrap().base_point_mul();
    let ticket_id = 100 + index as u128;
    let mut entry = AddEntry {
        id: 1000 - index as u128,
        ticket_id,
        event_id: competition.id,
        ephemeral_pubkey: key.to_string(),
        payout_hash: hex::encode([index as u8; 32]),
        expected_observations: vec![],
        encrypted_keymeld_private_key: None,
        keymeld_auth_pubkey: None,
        keymeld_registration_context: None,
    }
    .into_user_entry("owner".into());
    entry.entry_submission.id = ticket_id;
    entry
}

fn players(entries: &[UserEntry]) -> Vec<Player> {
    entries
        .iter()
        .map(|entry| Player {
            pubkey: hex::decode(&entry.ephemeral_pubkey).unwrap(),
            ticket_hash: vec![1; 32],
            payout_hash: vec![2; 32],
        })
        .collect()
}

#[test]
fn canonical_ticket_slots_match_contract_payouts_despite_reordered_local_entry_ids() {
    for player_count in [4, 7] {
        for places in 1..=3 {
            let competition = Competition::new(event(places, player_count), NOW);
            let mut entries: Vec<_> =
                (0..player_count).map(|index| entry(index, &competition)).collect();
            let players = players(&entries);
            // Database row order/local UUID order differs from canonical ticket order.
            entries.reverse();
            let actual = generate_payouts(&competition, &mut entries, &players).unwrap();
            let authorized = slot_payouts(player_count, places).unwrap();
            assert_eq!(
                authorized.attestations, actual.attestations,
                "players={player_count}, places={places}"
            );
            assert_eq!(authorized.expiry, actual.expiry, "players={player_count}, places={places}");
            let refund = authorized.expiry.unwrap();
            assert_eq!(refund.len(), player_count);
            assert_eq!(refund.values().sum::<u64>(), 100);
            assert!(refund.values().max().unwrap() - refund.values().min().unwrap() <= 1);
        }
    }
}

#[test]
fn slots_match_the_contract_where_every_player_places() {
    for (players, places) in [(1, 1), (2, 2), (5, 5), (6, 6), (6, 5)] {
        let competition = Competition::new(event(places, players), NOW);
        let mut entries: Vec<_> = (0..players).map(|index| entry(index, &competition)).collect();
        let listed = self::players(&entries);
        entries.reverse();
        let actual = generate_payouts(&competition, &mut entries, &listed).unwrap();
        let authorized = slot_payouts(players, places).unwrap();
        assert_eq!(authorized.attestations, actual.attestations);
        assert_eq!(authorized.expiry, actual.expiry);
        assert!(entries.windows(2).all(|two| two[0].ticket_id < two[1].ticket_id));
    }
}

#[test]
fn places_share_the_pot_by_rank() {
    assert_eq!(get_percentage_weights(1), vec![100]);
    assert_eq!(get_percentage_weights(2), vec![60, 40]);
    assert_eq!(get_percentage_weights(3), vec![45, 35, 20]);
    assert_eq!(get_percentage_weights(4), vec![42, 30, 18, 10]);
    assert_eq!(get_percentage_weights(5), vec![40, 27, 16, 9, 8]);
    assert_eq!(get_percentage_weights(6), vec![100]);
    for places in 1..=5 {
        assert_eq!(get_percentage_weights(places).iter().sum::<u64>(), 100);
    }
    assert_eq!(equal_weights(3), BTreeMap::from([(0, 34), (1, 33), (2, 33)]));
}

#[test]
fn rankings_are_listed_in_order_with_the_refund_last() {
    assert_eq!(
        generate_ranking_permutations(3, 2),
        vec![
            vec![0, 1],
            vec![0, 2],
            vec![1, 0],
            vec![1, 2],
            vec![2, 0],
            vec![2, 1],
            vec![0, 1, 2],
        ]
    );
    assert!(do_rankings_fit(10, 3));
    assert!(!do_rankings_fit(1_000_000, 5));
    assert!(do_places_weigh(10, 5));
    assert!(do_places_weigh(6, 6));
    assert!(!do_places_weigh(7, 6));
}

#[test]
fn slots_need_a_possible_number_of_places() {
    let refused = |players, places| slot_payouts(players, places).unwrap_err();
    assert_eq!(refused(0, 1), PayoutsError::InvalidCounts);
    assert_eq!(refused(101, 1), PayoutsError::InvalidCounts);
    assert_eq!(refused(2, 0), PayoutsError::InvalidCounts);
    assert_eq!(refused(2, 3), PayoutsError::InvalidCounts);
    let payouts = slot_payouts(2, 1).unwrap();
    assert_eq!(
        payouts.attestations,
        BTreeMap::from([
            (0, BTreeMap::from([(0, 100)])),
            (1, BTreeMap::from([(1, 100)])),
            (2, BTreeMap::from([(0, 50), (1, 50)])),
        ])
    );
}

#[test]
fn winners_are_found_among_the_players() {
    let competition = Competition::new(event(1, 3), NOW);
    let entries: Vec<UserEntry> = (0..3).map(|index| entry(index, &competition)).collect();
    let players = players(&entries);
    let winners = find_winning_entries_pubkeys(&entries, &vec![2, 0]);
    assert_eq!(
        winners,
        vec![entries[2].ephemeral_pubkey.clone(), entries[0].ephemeral_pubkey.clone()]
    );
    assert_eq!(find_player_indices(&players, winners).unwrap(), vec![2, 0]);
    let refused = |key: String| find_player_indices(&players, vec![key]).unwrap_err();
    assert_eq!(refused("nope".to_string()), PayoutsError::InvalidKey("nope".to_string()));
    let stranger = Scalar::from_slice(&[9; 32]).unwrap().base_point_mul().to_string();
    assert_eq!(refused(stranger.clone()), PayoutsError::NoPlayer(stranger));
}

#[test]
fn payouts_need_every_entry_to_be_a_player() {
    let competition = Competition::new(event(1, 2), NOW);
    let mut entries: Vec<UserEntry> = (0..2).map(|index| entry(index, &competition)).collect();
    let only_first = players(&entries[..1]);
    let key = entries[1].ephemeral_pubkey.clone();
    assert_eq!(
        generate_payouts(&competition, &mut entries, &only_first).unwrap_err(),
        PayoutsError::NoPlayer(key)
    );
}

fn params() -> ContractParameters {
    let mut rng = rand::rng();
    let player = |rng: &mut rand::rngs::ThreadRng| Player {
        pubkey: Scalar::random(rng).base_point_mul().serialize().to_vec(),
        ticket_hash: hashlock::sha256(&hashlock::preimage_random(rng)).to_vec(),
        payout_hash: hashlock::sha256(&hashlock::preimage_random(rng)).to_vec(),
    };
    let oracle = Scalar::random(&mut rng).base_point_mul();
    let nonce = Scalar::random(&mut rng).base_point_mul();
    ContractParameters {
        market_maker: Scalar::random(&mut rng).base_point_mul().serialize().to_vec(),
        players: vec![player(&mut rng), player(&mut rng)],
        event: EventAnnouncement {
            locking_points: vec![
                attestation_locking_point(oracle, nonce, b"a").serialize().to_vec(),
                attestation_locking_point(oracle, nonce, b"b").serialize().to_vec(),
            ],
            expiry: None,
        },
        outcome_payouts: OutcomePayouts {
            attestations: BTreeMap::from([
                (0, BTreeMap::from([(0, 1)])),
                (1, BTreeMap::from([(1, 1)])),
            ]),
            expiry: None,
        },
        fee_rate: 250,
        funding_value: 100_000,
        relative_locktime_block_delta: 72,
    }
}

fn null_outpoint() -> OutPoint {
    OutPoint { txid: vec![0; 32], vout: u32::MAX }
}

fn first_draw(outpoint: &OutPoint, key: Scalar, params: &ContractParameters) -> u64 {
    let contract = build_contract(params, outpoint, &key.serialize().to_vec()).unwrap();
    ChaCha20Rng::from_seed(contract.seed.try_into().unwrap()).next_u64()
}

#[test]
fn nonce_seed_is_stable_for_the_same_contract() {
    let key = Scalar::random(&mut rand::rng());
    let outpoint = null_outpoint();
    let params = params();

    assert_eq!(first_draw(&outpoint, key, &params), first_draw(&outpoint, key, &params));
}

#[test]
fn nonce_seed_changes_with_contract_params() {
    let key = Scalar::random(&mut rand::rng());
    let outpoint = null_outpoint();
    let params = params();
    let mut changed = params.duplicate();
    changed.fee_rate = 500;

    assert_ne!(first_draw(&outpoint, key, &params), first_draw(&outpoint, key, &changed));
}

#[test]
fn nonce_seed_is_a_tagged_digest() {
    let outpoint = OutPoint { txid: vec![5; 32], vout: 258 };
    let tag = hashlock::sha256(b"coordinator/musig-nonce/v1");
    let mut bound = [tag, tag].concat();
    bound.extend([1; 32]);
    bound.extend([5; 32]);
    bound.extend([2, 1, 0, 0]);
    bound.extend(hashlock::sha256(b"terms"));
    assert_eq!(
        nonce_seed(&outpoint, &vec![1; 32], &b"terms".to_vec()),
        hashlock::sha256(&bound).to_vec()
    );
}

#[test]
fn published_nonces_are_the_same_each_time() {
    let params = params();
    let key = params.market_maker.clone();
    assert!(contract_nonces(&params, &null_outpoint(), &key).is_err());
    let secret = Scalar::random(&mut rand::rng());
    let mut ours = params.duplicate();
    ours.market_maker = secret.base_point_mul().serialize().to_vec();
    let secret = secret.serialize().to_vec();
    let nonces = contract_nonces(&ours, &null_outpoint(), &secret).unwrap();
    assert_eq!(contract_nonces(&ours, &null_outpoint(), &secret).unwrap(), nonces);
}
