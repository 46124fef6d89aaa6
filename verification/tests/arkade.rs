use bitcoin::hashes::sha256;
use bitcoin::secp256k1::{Secp256k1, SecretKey};
use competitions::arkade::{
    ark_for, check_ark_swap, is_funded_ark_escrow, is_pending_ark_swap, mark_ticket_ark_paid,
    pending_ark_swap, set_ticket_ark_swap, store_ticket_ark_escrow, swap_was_created,
    ticket_ark_escrow, ticket_ark_escrow_need, ticket_ark_escrow_policy, ticket_ark_swap_terms,
    ArkError, ArkSettings, EscrowNeed, ListedVtxo, Swap, SwapState, SwapVerdict, TicketArkEscrow,
};
use competitions::claims::PaymentStatus;
use competitions::clock::{HOUR, SECOND};
use competitions::competition::{Competition, CreateEvent};
use competitions::contract::{EventAnnouncement, OutPoint};
use competitions::entries::Ticket;
use competitions::lifecycle::Coordinator;
use competitions::refunds::{
    advance_ticket_ark_refund, check_refund_session, check_unspent, escrow_spend,
    get_ticket_refund, is_refundable_ark_escrow, is_stale, kept_submission, listed_escrow,
    mint_terms, minted_refund, must_send_payment, needs_signing, payable_ticket_count,
    payment_was_settled, refund_ark_escrow, refund_payment, refund_turn, refund_was_recalled,
    refundable, refundable_ark_escrows, registrations_were_sent, replace_minted_ticket_ark_refund,
    resume_refund, store_ticket_ark_refund, ArkRefundState, EscrowSpend, HeldEscrow,
    KeptSubmission, MintTerms, MintedStep, RefundError, RefundStep, RefundTurn, Registered,
    TicketArkRefund,
};
use competitions::registration::{
    keeps_registration, registration_for_refund, store_ticket_registration, ticket_registration,
    RegistrationStored, StoredRegistration,
};
use competitions::tickets::RequestError;
use lightning_invoice::{Currency, InvoiceBuilder, PaymentSecret};
use std::time::Duration;

const PRICE: u64 = 50_000;
const SECONDS: i64 = 1_800_000_000;
const NOW: i128 = 1_800_000_000 * SECOND;
const COMPETITION: u128 = 1;

fn outpoint(byte: u8, vout: u32) -> OutPoint {
    OutPoint { txid: vec![byte; 32], vout }
}

fn txid_text(outpoint: &OutPoint) -> String {
    // A transaction is named by its bytes in reverse.
    let mut bytes = outpoint.txid.clone();
    bytes.reverse();
    hex::encode(bytes)
}

fn output_text(outpoint: &OutPoint) -> String {
    format!("{}:{}", txid_text(outpoint), outpoint.vout)
}

fn ticket() -> Ticket {
    Ticket {
        id: 21,
        competition_id: COMPETITION,
        entry_id: None,
        encrypted_preimage: hex::encode([1; 32]),
        hash: hex::encode(dlctix::hashlock::sha256(&[1; 32])),
        payment_request: None,
        invoice_expires_at: None,
        expiry: NOW,
        ephemeral_pubkey: None,
        reserved_by: Some("player".to_string()),
        reserved_at: Some(NOW),
        paid_at: None,
        settled_at: None,
        escrow_transaction: None,
    }
}

fn escrow() -> TicketArkEscrow {
    let mut stored = None;
    store_ticket_ark_escrow(
        &mut stored,
        21,
        ticket().hash,
        "tree".to_string(),
        "ark1address".to_string(),
    );
    let mut escrow = stored.unwrap();
    escrow.swap_id = Some(7);
    escrow
}

fn listed(outpoint: OutPoint, amount_sats: u64, is_spent: bool) -> ListedVtxo {
    ListedVtxo { outpoint, amount_sats, is_spent, spent_by: None, ark_txid: None }
}

fn swap(state: SwapState, vtxo: Option<&OutPoint>, paid_in: Option<&OutPoint>) -> Swap {
    Swap {
        state,
        amount_sat: PRICE,
        escrow_vtxo: vtxo.map(output_text),
        ark_txid: paid_in.map(txid_text),
    }
}

#[test]
fn a_settled_swap_pays_the_ticket_once_arkade_lists_its_escrow_vtxo() {
    let (mut ticket, mut escrow) = (ticket(), escrow());
    let paid = outpoint(0xa1, 0);
    // The swap settled before the indexer listed the VTXO, so it knows only the Ark
    // transaction that paid it.
    let swap = swap(SwapState::Settled, None, Some(&paid));
    assert_eq!(check_ark_swap(&swap, &vec![], PRICE), SwapVerdict::Wait);
    assert!(is_pending_ark_swap(&escrow, &ticket));

    let vtxos = vec![listed(outpoint(0xa1, 0), PRICE, false)];
    assert_eq!(check_ark_swap(&swap, &vtxos, PRICE), SwapVerdict::Pay(0));
    let hash = ticket.hash.clone();
    assert!(mark_ticket_ark_paid(
        &mut ticket,
        &mut escrow,
        21,
        &hash,
        COMPETITION,
        &vtxos[0],
        NOW
    ));
    assert_eq!((ticket.paid_at, ticket.settled_at), (Some(NOW), Some(NOW)));
    assert_eq!(escrow.vtxo_outpoint, Some(output_text(&paid)));
    assert_eq!((escrow.vtxo_sats, escrow.funded_at), (Some(PRICE), Some(SECONDS)));
    assert!(!is_pending_ark_swap(&escrow, &ticket), "a paid ticket's swap is done");
    // Recording it again changes nothing.
    assert!(mark_ticket_ark_paid(
        &mut ticket,
        &mut escrow,
        21,
        &hash,
        COMPETITION,
        &listed(outpoint(0xa2, 0), 1, false),
        NOW + HOUR
    ));
    assert_eq!(ticket.paid_at, Some(NOW));
    assert_eq!(escrow.vtxo_sats, Some(PRICE));
}

#[test]
fn the_vtxo_a_swap_names_must_be_listed_at_the_escrow_with_the_ticket_price() {
    let named = outpoint(0xa2, 1);
    let swap = swap(SwapState::Settled, Some(&named), Some(&named));
    let vtxos = vec![
        listed(outpoint(0xa2, 0), PRICE, false),
        listed(outpoint(0xa2, 1), PRICE, false),
    ];
    assert_eq!(check_ark_swap(&swap, &vtxos, PRICE), SwapVerdict::Pay(1));
}

#[test]
fn a_vtxo_from_another_transaction_does_not_pay_the_ticket() {
    let swap = swap(SwapState::Settled, None, Some(&outpoint(0xa3, 0)));
    let vtxos = vec![listed(outpoint(0xb3, 0), PRICE, false)];
    assert_eq!(check_ark_swap(&swap, &vtxos, PRICE), SwapVerdict::Wait);
}

#[test]
fn a_vtxo_worth_less_than_the_ticket_price_does_not_pay_it() {
    let paid = outpoint(0xa4, 0);
    let vtxos = vec![listed(outpoint(0xa4, 0), PRICE - 1, false)];
    let unnamed = swap(SwapState::Settled, None, Some(&paid));
    assert_eq!(check_ark_swap(&unnamed, &vtxos, PRICE), SwapVerdict::Wait);
    // The same holds for a VTXO the swap names.
    let named = swap(SwapState::Settled, Some(&paid), None);
    assert_eq!(check_ark_swap(&named, &vtxos, PRICE), SwapVerdict::Wait);
}

#[test]
fn a_vtxo_worth_more_than_the_ticket_price_pays_it() {
    let (mut ticket, mut escrow) = (ticket(), escrow());
    let paid = outpoint(0xa4, 0);
    let swap = swap(SwapState::Settled, None, Some(&paid));
    let vtxos = vec![
        listed(outpoint(0xa4, 1), PRICE - 1, false),
        listed(outpoint(0xa4, 0), PRICE + 1, false),
    ];
    assert_eq!(check_ark_swap(&swap, &vtxos, PRICE), SwapVerdict::Pay(1));
    let hash = ticket.hash.clone();
    assert!(mark_ticket_ark_paid(
        &mut ticket,
        &mut escrow,
        21,
        &hash,
        COMPETITION,
        &vtxos[1],
        NOW
    ));
    assert_eq!(escrow.vtxo_sats, Some(PRICE + 1), "all of it is the player's to get back");
}

#[test]
fn a_vtxo_at_another_address_does_not_pay_the_ticket() {
    let paid = outpoint(0xa6, 0);
    let swap = swap(SwapState::Settled, Some(&paid), Some(&paid));
    // The VTXO exists, but in another ticket's escrow, so nothing is listed at this one's.
    assert_eq!(check_ark_swap(&swap, &vec![], PRICE), SwapVerdict::Wait);
    // And another ticket's swap does not name it.
    let other = self::swap(SwapState::Settled, None, None);
    let vtxos = vec![listed(outpoint(0xa6, 0), PRICE, false)];
    assert_eq!(check_ark_swap(&other, &vtxos, PRICE), SwapVerdict::Wait);
}

#[test]
fn a_spent_vtxo_does_not_pay_the_ticket() {
    let swap = swap(SwapState::Settled, None, Some(&outpoint(0xa7, 0)));
    let vtxos = vec![listed(outpoint(0xa7, 0), PRICE, true)];
    assert_eq!(check_ark_swap(&swap, &vtxos, PRICE), SwapVerdict::Wait);
}

#[test]
fn a_swap_for_another_amount_than_the_ticket_price_does_not_pay_it() {
    let paid = outpoint(0xa8, 0);
    let mut swap = swap(SwapState::Settled, Some(&paid), Some(&paid));
    swap.amount_sat = PRICE - 500;
    let vtxos = vec![listed(outpoint(0xa8, 0), PRICE - 500, false)];
    assert_eq!(check_ark_swap(&swap, &vtxos, PRICE), SwapVerdict::Wait);
}

#[test]
fn only_a_settled_player_payment_pays_the_ticket() {
    let paid = outpoint(0xa9, 0);
    let vtxos = vec![listed(outpoint(0xa9, 0), PRICE, false)];
    let decided = |state: SwapState| {
        check_ark_swap(&swap(state, Some(&paid), Some(&paid)), &vtxos, PRICE)
    };
    // The escrow is paid, but the player's invoice is not settled yet.
    assert_eq!(decided(SwapState::EscrowPaid), SwapVerdict::Wait);
    assert_eq!(decided(SwapState::AwaitingPayment), SwapVerdict::Wait);
    // Settling failed and the player's payment went back to them: the ticket is released.
    assert_eq!(decided(SwapState::Unsettled), SwapVerdict::Release);
    assert_eq!(decided(SwapState::Expired), SwapVerdict::Release);
    assert_eq!(decided(SwapState::Settled), SwapVerdict::Pay(0));
    // Released, it is waited for no more.
    let mut released = ticket();
    released.reserved_at = None;
    assert!(!is_pending_ark_swap(&escrow(), &released));
    let hash = released.hash.clone();
    assert!(!mark_ticket_ark_paid(
        &mut released,
        &mut escrow(),
        21,
        &hash,
        COMPETITION,
        &vtxos[0],
        NOW
    ));
    assert!(released.paid_at.is_none());
}

/// A partially signed transaction.
fn checkpoint() -> Vec<u8> {
    let input = bitcoin::TxIn::default();
    let unsigned = bitcoin::Transaction {
        version: bitcoin::transaction::Version::TWO,
        lock_time: bitcoin::absolute::LockTime::ZERO,
        input: vec![input],
        output: vec![bitcoin::TxOut {
            value: bitcoin::Amount::from_sat(PRICE),
            script_pubkey: bitcoin::ScriptBuf::new(),
        }],
    };
    bitcoin::Psbt::from_unsigned_tx(unsigned).unwrap().serialize()
}

/// Store a registration for the ticket as the player sends it.
fn store_as(
    ticket: &Ticket,
    stored: &mut Option<StoredRegistration>,
    hash: &str,
    player: &str,
    registration: &str,
) -> RegistrationStored {
    store_ticket_registration(
        ticket,
        stored,
        hash.to_string(),
        &player.to_string(),
        registration.to_string(),
    )
}

#[test]
fn a_registration_is_fixed_once_its_ticket_is_paid() {
    let mut ticket = ticket();
    let hash = ticket.hash.clone();
    let mut stored = None;
    assert_eq!(
        store_as(&ticket, &mut stored, &hash, "mallory", "sealed"),
        RegistrationStored::ReservationChanged,
        "only the ticket's holder registers it"
    );
    assert_eq!(
        store_as(&ticket, &mut stored, &hash, "player", "sealed"),
        RegistrationStored::Stored
    );
    assert_eq!(
        store_as(&ticket, &mut stored, &hash, "player", "sealed"),
        RegistrationStored::Unchanged
    );
    assert_eq!(
        store_as(&ticket, &mut stored, &hash, "player", "sealed-again"),
        RegistrationStored::Stored,
        "an unpaid ticket's player may send it again"
    );
    ticket.paid_at = Some(NOW);
    assert_eq!(
        store_as(&ticket, &mut stored, &hash, "player", "sealed"),
        RegistrationStored::Fixed
    );
    assert_eq!(
        store_as(&ticket, &mut stored, &hash, "player", "sealed-again"),
        RegistrationStored::Unchanged
    );
    assert_eq!(stored.unwrap().registration_json, "sealed-again");
}

#[test]
fn a_taken_over_reservation_loses_its_registration() {
    let mut ticket = ticket();
    let hash = ticket.hash.clone();
    let mut stored = None;
    store_as(&ticket, &mut stored, &hash, "player", "sealed");
    // A takeover rotates the hash.
    ticket.hash = hex::encode([9; 32]);
    ticket.reserved_by = Some("someone else".to_string());
    assert_eq!(
        store_as(&ticket, &mut stored, &hash, "player", "sealed"),
        RegistrationStored::ReservationChanged
    );
    assert_eq!(
        store_as(&ticket, &mut stored, &hex::encode([9; 32]), "someone else", "theirs"),
        RegistrationStored::Stored
    );
    assert_eq!(stored.unwrap().registration_json, "theirs");
}

/// What is registered for a ticket, as its player sent it.
fn sent(ticket: &Ticket) -> Option<StoredRegistration> {
    let mut stored = None;
    store_as(ticket, &mut stored, &ticket.hash, "player", "sealed");
    stored
}

#[test]
fn registrations_go_with_their_released_reservations() {
    let mut ticket = ticket();
    ticket.invoice_expires_at = Some(NOW + HOUR);
    let stored = sent(&ticket);
    let kept = |ticket: &Ticket| {
        keeps_registration(&stored, ticket, &competition(), false, &None, &None, NOW)
    };
    assert!(kept(&ticket), "reservations still held keep theirs");
    assert_eq!(ticket_registration(&stored, &ticket.hash).unwrap(), "sealed");
    ticket.reserved_at = None;
    ticket.reserved_by = None;
    assert!(!kept(&ticket));
    ticket.reserved_at = Some(NOW);
    ticket.hash = hex::encode([9; 32]);
    assert!(!kept(&ticket), "a reservation that was taken over is another");
    assert!(ticket_registration(&stored, &ticket.hash).is_none());
    assert!(!keeps_registration(&None, &ticket, &competition(), false, &None, &None, NOW));
}

#[test]
fn a_completed_competition_keeps_no_registrations() {
    let stored = sent(&ticket());
    let (ticket, escrow) = funded();
    let (escrow, mut competition) = (Some(escrow), competition());
    let kept = |competition: &Competition| {
        keeps_registration(&stored, &ticket, competition, true, &escrow, &None, NOW)
    };
    assert!(kept(&competition), "a live competition keeps its own");
    competition.completed_at = Some(NOW);
    assert!(!kept(&competition));
}

#[test]
fn unpaid_tickets_registrations_never_reach_keymeld() {
    let mut unpaid = ticket();
    unpaid.invoice_expires_at = Some(NOW);
    let stored = sent(&unpaid);
    assert!(registration_for_refund(&unpaid, &stored).is_none());
    let mut competition = competition();
    competition.cancelled_at = Some(NOW);
    let kept = |ticket: &Ticket, now: i128| {
        keeps_registration(&stored, ticket, &competition, false, &None, &None, now)
    };
    assert!(kept(&unpaid, NOW - 1), "it can still be paid");
    assert!(
        !kept(&unpaid, NOW),
        "a dead competition keeps no registration of a ticket that can no longer be paid"
    );
}

#[test]
fn a_paid_ticket_never_entered_is_refunded_with_the_registration_sent_before_paying() {
    let stored = sent(&ticket());
    let (mut ticket, escrow) = funded();
    let (escrow, mut competition) = (Some(escrow), competition());
    competition.cancelled_at = Some(NOW);
    assert_eq!(registration_for_refund(&ticket, &stored).unwrap(), "sealed");
    assert_eq!(refund_turn(&None, true, true, false), RefundTurn::Carry);
    let kept = |state: Option<ArkRefundState>| {
        let refund = state.map(in_state);
        keeps_registration(&stored, &ticket, &competition, false, &escrow, &refund, NOW)
    };
    assert!(kept(None));
    assert!(kept(Some(ArkRefundState::Minted)));
    assert!(!kept(Some(ArkRefundState::Submitting)), "it is signed");
    assert!(!kept(Some(ArkRefundState::Settled)), "nothing is left to refund");
    ticket.entry_id = Some(1);
    assert!(registration_for_refund(&ticket, &stored).is_none(), "an entry registers itself");
}

fn competition() -> Competition {
    Competition::new(
        CreateEvent {
            id: COMPETITION,
            signing_date: NOW,
            start_observation_date: NOW + HOUR,
            end_observation_date: NOW + 2 * HOUR,
            locations: vec![],
            number_of_values_per_entry: 1,
            number_of_places_win: 1,
            total_allowed_entries: 2,
            entry_fee: PRICE as usize,
            coordinator_fee_percentage: 0,
            total_competition_pool: 2 * PRICE as usize,
            relative_locktime_block_delta: None,
            unlisted: false,
        },
        NOW,
    )
}

const SETTINGS: ArkSettings =
    ArkSettings { refund_after_start_secs: 7_200, max_refund_fee_sats: 300 };

#[test]
fn an_escrow_is_fixed_for_a_reservation() {
    let ticket = ticket();
    let mut competition = competition();
    let needed = |existing: Option<TicketArkEscrow>, competition: &Competition, now: i128| {
        ticket_ark_escrow_need(&existing, &ticket, competition, SETTINGS, now)
    };
    let built = |refund_at: u32| Ok(EscrowNeed::Build { refund_at, now: SECONDS as u32 });
    assert_eq!(needed(Some(escrow()), &competition, NOW), Ok(EscrowNeed::Reuse));
    assert_eq!(needed(None, &competition, NOW), built(SECONDS as u32 + 3_600 + 7_200));
    competition.event_announcement =
        Some(EventAnnouncement { locking_points: vec![], expiry: Some(SECONDS as u32 + 5_000) });
    assert_eq!(needed(None, &competition, NOW), built(SECONDS as u32 + 5_000));
    assert_eq!(
        needed(None, &competition, -SECOND),
        Err(ArkError::TimestampOutOfRange)
    );
    let mut rotated = escrow();
    rotated.ticket_hash = "another".to_string();
    assert!(matches!(
        needed(Some(rotated), &competition, NOW),
        Ok(EscrowNeed::Build { .. })
    ));

    let mut stored = Some(escrow());
    let store = |stored: &mut Option<TicketArkEscrow>, hash: &str| {
        store_ticket_ark_escrow(
            stored,
            21,
            hash.to_string(),
            "other tree".to_string(),
            "ark1other".to_string(),
        )
    };
    store(&mut stored, &ticket.hash);
    assert_eq!(stored.as_ref().unwrap().escrow_address, "ark1address");
    store(&mut stored, "another");
    assert_eq!(stored.as_ref().unwrap().escrow_address, "ark1other");
    assert_eq!(stored.as_ref().unwrap().swap_id, None);
}

#[test]
fn a_player_agrees_to_the_escrow_and_its_swap() {
    let mut ticket = ticket();
    let policy =
        ticket_ark_escrow_policy(Some(escrow()), &ticket, 100, SETTINGS, &vec![0xab]).unwrap();
    assert_eq!(policy.escrow_tap_tree, "tree");
    assert_eq!((policy.max_fee_sats, policy.max_refund_fee_sats), (100, 300));
    assert_eq!(policy.checkpoint_exit_script, "ab");
    assert_eq!(
        ticket_ark_escrow_policy(None, &ticket, 100, SETTINGS, &vec![]).unwrap_err(),
        ArkError::ReservationChanged
    );

    let terms = ticket_ark_swap_terms(&Some(escrow()), &ticket).unwrap();
    assert_eq!(terms.escrow_address, "ark1address");
    assert_eq!(terms.preimage, vec![1; 32]);
    assert_eq!(ticket_ark_swap_terms(&None, &ticket).unwrap_err(), ArkError::NoEscrow);
    let hash = ticket.hash.clone();
    assert_eq!(swap_was_created(&ticket, &hash, SECONDS), Ok(NOW));
    assert_eq!(
        swap_was_created(&ticket, &"other".to_string(), SECONDS),
        Err(ArkError::WrongHash)
    );
    assert_eq!(swap_was_created(&ticket, &hash, i64::MAX), Err(ArkError::InvalidExpiry));
    ticket.encrypted_preimage = "00".to_string();
    assert_eq!(
        ticket_ark_swap_terms(&Some(escrow()), &ticket).unwrap_err(),
        ArkError::InvalidPreimage
    );
}

#[test]
fn arkade_is_for_automatic_payouts() {
    let coordinator = |automatic_payouts: bool| Coordinator {
        escrow_enabled: false,
        keymeld_enabled: true,
        required_confirmations: 1,
        invoice_settlement_confirmations: 1,
        relative_locktime_block_delta: 72,
        automatic_payouts,
        automatic_payout_max_fee_rate: 10,
        tolerated_errors: 3,
        kept_settlement_errors: 5,
    };
    assert_eq!(coordinator(true).with_ark(Some(SETTINGS)), Ok(Some(SETTINGS)));
    assert_eq!(
        coordinator(false).with_ark(Some(SETTINGS)),
        Err(ArkError::NoAutomaticPayouts)
    );
    assert_eq!(coordinator(false).with_ark(None), Ok(None));
    assert_eq!(ark_for(false, Some(SETTINGS)), Ok(None));
    assert_eq!(ark_for(true, Some(SETTINGS)), Ok(Some(SETTINGS)));
    assert_eq!(ark_for(true, None), Err(ArkError::NotConfigured));
}

/// An invoice that pays to `[7; 32]` and expires 3600 seconds after `made_at`.
fn invoice(made_at: u64) -> String {
    let hash = <sha256::Hash as bitcoin::hashes::Hash>::from_byte_array([7; 32]);
    InvoiceBuilder::new(Currency::Regtest)
        .description("refund".into())
        .payment_hash(hash)
        .payment_secret(PaymentSecret([8; 32]))
        .amount_milli_satoshis(10_000)
        .duration_since_epoch(Duration::from_secs(made_at))
        .min_final_cltv_expiry_delta(18)
        .build_signed(|hash| {
            Secp256k1::new().sign_ecdsa_recoverable(hash, &SecretKey::from_slice(&[9; 32]).unwrap())
        })
        .unwrap()
        .to_string()
}

fn minted(refund_id: u128, created_at: i64) -> TicketArkRefund {
    minted_refund(
        21,
        refund_id,
        invoice(created_at as u64),
        hex::encode([7; 32]),
        300,
        created_at,
    )
}

fn in_state(state: ArkRefundState) -> TicketArkRefund {
    let mut refund = minted(5, SECONDS);
    advance_ticket_ark_refund(&mut refund, state, None, None, None, SECONDS);
    refund
}

#[test]
fn an_escrow_is_looked_up_by_the_hash_that_its_ticket_has_now() {
    let mut stored = Some(escrow());
    let (hash, other) = (ticket().hash, hex::encode([9; 32]));
    set_ticket_ark_swap(&mut stored, 21, &other, 8);
    set_ticket_ark_swap(&mut stored, 22, &hash, 8);
    assert_eq!(stored.as_ref().unwrap().swap_id, Some(7), "another reservation's swap is not its");
    set_ticket_ark_swap(&mut stored, 21, &hash, 8);
    assert_eq!(ticket_ark_escrow(&stored, 21, &hash).unwrap().swap_id, Some(8));
    assert!(ticket_ark_escrow(&stored, 21, &other).is_none());
    assert!(ticket_ark_escrow(&stored, 22, &hash).is_none());
    assert!(ticket_ark_escrow(&None, 21, &hash).is_none());

    let pending = pending_ark_swap(stored.as_ref().unwrap(), &ticket()).unwrap();
    assert_eq!((pending.ticket_id, pending.competition_id, pending.swap_id), (21, COMPETITION, 8));
    assert_eq!(pending.ticket_hash, hash);
    assert!(!is_funded_ark_escrow(&escrow(), &ticket(), COMPETITION));
    let (paid, funded) = funded();
    assert!(pending_ark_swap(&funded, &paid).is_none(), "a paid swap is no longer waited for");
    assert!(is_funded_ark_escrow(&funded, &paid, COMPETITION));
    assert!(!is_funded_ark_escrow(&funded, &paid, COMPETITION + 1));
    let released = Ticket { reserved_at: None, ..ticket() };
    assert!(pending_ark_swap(&escrow(), &released).is_none());
}

/// A paid ticket and its funded escrow.
fn funded() -> (Ticket, TicketArkEscrow) {
    let (mut ticket, mut escrow) = (ticket(), escrow());
    let hash = ticket.hash.clone();
    mark_ticket_ark_paid(
        &mut ticket,
        &mut escrow,
        21,
        &hash,
        COMPETITION,
        &listed(outpoint(21, 0), PRICE, false),
        NOW,
    );
    (ticket, escrow)
}

#[test]
fn a_cancelled_arkade_competition_refunds_each_funded_escrow_once() {
    let (ticket, escrow) = funded();
    let mut competition = competition();
    let owed = |competition: &Competition, refund: Option<TicketArkRefund>| {
        is_refundable_ark_escrow(competition, false, &ticket, &escrow, &refund)
    };
    assert!(!owed(&competition, None), "a live competition is not cleaned up");
    competition.cancelled_at = Some(NOW);
    assert!(owed(&competition, None));
    let open = refundable(&escrow, SECONDS as u32, SECONDS).unwrap().unwrap();
    assert_eq!((open.ticket_id, open.sats), (21, PRICE));
    assert_eq!((open.outpoint.txid, open.outpoint.vout), (vec![21; 32], 0));
    assert!(refundable(&escrow, SECONDS as u32 + 1, SECONDS).unwrap().is_none());

    // From the mint to the claim, each step is taken once.
    assert_eq!(refund_ark_escrow(&None), RefundStep::Mint);
    let mut stored = None;
    store_ticket_ark_refund(&mut stored, minted(5, SECONDS));
    store_ticket_ark_refund(&mut stored, minted(6, SECONDS));
    assert_eq!(stored.as_ref().unwrap().refund_id, 5);
    assert_eq!(refund_ark_escrow(&stored), RefundStep::Recall);
    let mut refund = stored.unwrap();
    advance_ticket_ark_refund(
        &mut refund,
        ArkRefundState::Submitting,
        Some(txid_text(&outpoint(0xaa, 0))),
        Some(hex::encode(checkpoint())),
        None,
        SECONDS + 1,
    );
    assert_eq!(refund_ark_escrow(&Some(in_state(ArkRefundState::Submitting))), RefundStep::Resume);
    let kept = resume_refund(&refund).unwrap();
    assert_eq!((kept.ark_txid, kept.checkpoint_psbt), (vec![0xaa; 32], checkpoint()));
    advance_ticket_ark_refund(
        &mut refund,
        ArkRefundState::Submitted,
        None,
        None,
        Some("why".to_string()),
        SECONDS + 2,
    );
    assert_eq!(refund.ark_txid, Some(txid_text(&outpoint(0xaa, 0))));
    assert_eq!((refund.error.as_deref(), refund.updated_at), (Some("why"), SECONDS + 2));
    let payment = refund_payment(&refund, PRICE).unwrap();
    assert_eq!(payment.payment_hash, hex::encode([7; 32]));
    assert_eq!(payment.owed_sats, PRICE - 300);
    assert_eq!(refund_ark_escrow(&Some(refund)), RefundStep::Pay);
    let settled = in_state(ArkRefundState::Settled);
    assert_eq!(refund_ark_escrow(&Some(settled)), RefundStep::Done);
    assert!(!owed(&competition, Some(in_state(ArkRefundState::Settled))), "nothing is left");
}

#[test]
fn the_escrows_of_a_pool_a_batch_funded_are_not_refunded() {
    let (ticket, escrow) = funded();
    let mut competition = competition();
    competition.failed_at = Some(NOW);
    assert!(is_refundable_ark_escrow(&competition, false, &ticket, &escrow, &None));
    assert!(!is_refundable_ark_escrow(&competition, true, &ticket, &escrow, &None));
    let mut unpaid = ticket;
    unpaid.paid_at = None;
    assert!(!is_refundable_ark_escrow(&competition, false, &unpaid, &escrow, &None));
}

#[test]
fn a_further_run_leaves_settled_refunds_alone() {
    let held = |refund: Option<TicketArkRefund>| {
        let (ticket, escrow) = funded();
        HeldEscrow { ticket, escrow, refund }
    };
    let mut competition = competition();
    competition.cancelled_at = Some(NOW);
    let mut escrows = vec![
        held(Some(in_state(ArkRefundState::Settled))),
        held(None),
        held(Some(in_state(ArkRefundState::Paid))),
    ];
    assert_eq!(refundable_ark_escrows(&competition, false, &escrows), vec![1, 2]);
    assert!(refundable_ark_escrows(&competition, true, &escrows).is_empty());
    escrows[1].refund = Some(in_state(ArkRefundState::Settled));
    escrows[2].refund = Some(in_state(ArkRefundState::Settled));
    assert!(refundable_ark_escrows(&competition, false, &escrows).is_empty());
    for escrow in &mut escrows {
        assert_eq!(refund_ark_escrow(&escrow.refund), RefundStep::Done);
        assert!(!needs_signing(&escrow.refund));
        store_ticket_ark_refund(&mut escrow.refund, minted(9, SECONDS));
        assert!(!replace_minted_ticket_ark_refund(&mut escrow.refund, 5, minted(9, SECONDS)));
        let kept = escrow.refund.as_ref().unwrap();
        assert_eq!((kept.refund_id, kept.state), (5, ArkRefundState::Settled));
    }
}

#[test]
fn a_kept_submission_is_resumed_from() {
    let kept = KeptSubmission { ark_txid: outpoint(0xc1, 0).txid, checkpoint_psbt: checkpoint() };
    let mut of = kept.ark_txid.clone();
    of[0] = 0xab;
    let kept = KeptSubmission { ark_txid: of.clone(), ..kept };
    let (txid, psbt) = kept_submission(&kept);
    assert_eq!(txid, txid_text(&OutPoint { txid: of.clone(), vout: 0 }));
    assert_eq!(psbt, hex::encode(checkpoint()));
    let mut refund = minted(5, SECONDS);
    let state = ArkRefundState::Submitting;
    advance_ticket_ark_refund(&mut refund, state, Some(txid), Some(psbt), None, SECONDS);
    let resumed = resume_refund(&refund).unwrap();
    assert_eq!((resumed.ark_txid, resumed.checkpoint_psbt), (of, checkpoint()));
}

#[test]
fn a_refund_whose_claim_was_lost_after_paying_finishes_without_paying_again() {
    let paid = Some(in_state(ArkRefundState::Paid));
    assert_eq!(refund_ark_escrow(&paid), RefundStep::Pay);
    assert!(!must_send_payment(Some(PaymentStatus::Succeeded)));
    assert!(must_send_payment(Some(PaymentStatus::Failed)));
    assert!(must_send_payment(None));
    let proof = Some(hex::encode([3; 32]));
    assert_eq!(payment_was_settled(PaymentStatus::Succeeded, &proof), Ok(vec![3; 32]));
    assert_eq!(
        payment_was_settled(PaymentStatus::InFlight, &proof),
        Err(RefundError::Unsettled)
    );
    assert_eq!(payment_was_settled(PaymentStatus::Succeeded, &None), Err(RefundError::NoProof));
    assert_eq!(
        payment_was_settled(PaymentStatus::Succeeded, &Some("00".to_string())),
        Err(RefundError::InvalidProof)
    );
}

#[test]
fn a_minted_refund_that_expired_unsigned_is_minted_again() {
    let stale = minted(5, SECONDS);
    assert_eq!(stale.state, ArkRefundState::Minted);
    let deadline = (SECONDS + 3_600) as u32;
    let soonest = 600;
    assert_eq!(is_stale(&stale.invoice, deadline, soonest, SECONDS), Ok(false));
    let unspent = EscrowSpend::Unspent;
    assert_eq!(
        refund_was_recalled(unspent, Ok(false), SECONDS, SECONDS),
        Ok(MintedStep::Submit)
    );
    // Its swap's deadline is too close for the verifier to sign it.
    let now = SECONDS + 3_600 - 600 - 299;
    assert_eq!(is_stale(&stale.invoice, deadline, soonest, now - 1), Ok(false));
    assert_eq!(is_stale(&stale.invoice, deadline, soonest, now), Ok(true));
    // Or its invoice is about to expire.
    assert_eq!(is_stale(&stale.invoice, u32::MAX, soonest, SECONDS + 3_600 - 120), Ok(false));
    assert_eq!(is_stale(&stale.invoice, u32::MAX, soonest, SECONDS + 3_600 - 119), Ok(true));
    assert_eq!(
        is_stale(&"nope".to_string(), deadline, soonest, now),
        Err(RefundError::InvalidInvoice)
    );
    assert_eq!(
        refund_was_recalled(unspent, Ok(true), SECONDS, now),
        Err(RefundError::MintedAgainFrom(SECONDS + 3_600)),
        "a refund is minted again at most hourly"
    );
    assert_eq!(
        refund_was_recalled(unspent, Ok(true), SECONDS, SECONDS + 3_600),
        Ok(MintedStep::Remint)
    );
    assert_eq!(
        refund_was_recalled(unspent, Err(RefundError::InvalidInvoice), SECONDS, SECONDS),
        Err(RefundError::InvalidInvoice)
    );
    let mut stored = Some(stale);
    assert!(!replace_minted_ticket_ark_refund(&mut stored, 9, minted(6, SECONDS + 3_600)));
    assert!(replace_minted_ticket_ark_refund(&mut stored, 5, minted(6, SECONDS + 3_600)));
    assert_eq!(stored.as_ref().unwrap().refund_id, 6);
    stored.as_mut().unwrap().state = ArkRefundState::Submitting;
    assert!(!replace_minted_ticket_ark_refund(&mut stored, 6, minted(7, SECONDS + 7_200)));
}

#[test]
fn an_escrow_spent_by_something_else_pays_no_refund() {
    let mut vtxo = listed(outpoint(21, 0), PRICE, false);
    let (ark, checkpoint) = (vec![0xaa; 32], vec![0xbb; 32]);
    assert_eq!(check_unspent(&vtxo), Ok(()));
    assert_eq!(escrow_spend(&vtxo, &ark, &checkpoint), EscrowSpend::Unspent);
    vtxo.is_spent = true;
    vtxo.spent_by = Some(vec![0xee; 32]);
    assert_eq!(check_unspent(&vtxo), Err(RefundError::SpentElsewhere));
    assert_eq!(escrow_spend(&vtxo, &ark, &checkpoint), EscrowSpend::Elsewhere);
    assert_eq!(
        refund_was_recalled(EscrowSpend::Elsewhere, Err(RefundError::InvalidInvoice), SECONDS, SECONDS),
        Err(RefundError::SpentElsewhere)
    );
    vtxo.spent_by = Some(checkpoint.clone());
    assert_eq!(escrow_spend(&vtxo, &ark, &checkpoint), EscrowSpend::ByRefund);
    assert_eq!(
        refund_was_recalled(EscrowSpend::ByRefund, Ok(false), SECONDS, SECONDS),
        Err(RefundError::SpentByRefund)
    );
    let vtxos = vec![listed(outpoint(20, 0), PRICE, false), vtxo];
    assert_eq!(listed_escrow(&vtxos, &outpoint(21, 0)), Ok(1));
    assert_eq!(listed_escrow(&vtxos, &outpoint(21, 1)), Err(RefundError::NotListed));
}

#[test]
fn a_paid_ticket_whose_player_sent_no_registration_is_left_for_an_operator() {
    assert_eq!(
        refund_turn(&None, false, true, false),
        RefundTurn::Report(RefundError::NeverRegistered)
    );
    assert_eq!(refund_turn(&None, true, true, false), RefundTurn::Carry);
}

#[test]
fn a_player_keymeld_cannot_register_holds_back_signing_but_not_a_refund_under_way() {
    let answers = vec![(21, Registered::Done), (23, Registered::Refused)];
    assert_eq!(registrations_were_sent(&answers), Err(RefundError::CannotRegister(23)));
    // So nothing is signed now: a refund under way goes on, and another one waits.
    assert_eq!(
        refund_turn(&Some(in_state(ArkRefundState::Paid)), true, false, false),
        RefundTurn::Carry
    );
    assert!(!needs_signing(&Some(in_state(ArkRefundState::Paid))));
    assert!(needs_signing(&None));
    assert_eq!(refund_turn(&None, true, false, false), RefundTurn::Skip);
    assert_eq!(
        refund_turn(&Some(in_state(ArkRefundState::Minted)), true, false, false),
        RefundTurn::Skip
    );
}

#[test]
fn a_ticket_counted_after_keymeld_has_the_roster_is_left_for_an_operator() {
    let answers = vec![(21, Registered::Done), (23, Registered::RosterFixed)];
    assert_eq!(registrations_were_sent(&answers), Ok(vec![23]));
    assert_eq!(
        refund_turn(&None, true, true, true),
        RefundTurn::Report(RefundError::CountedLate)
    );
}

#[test]
fn refunds_wait_while_a_ticket_can_still_be_paid() {
    let (paid, _) = funded();
    let mut unpaid = ticket();
    unpaid.invoice_expires_at = Some(NOW + HOUR);
    let tickets = vec![paid, unpaid];
    assert_eq!(payable_ticket_count(&tickets, NOW), 1);
    assert_eq!(check_refund_session(1, true), Err(RefundError::StillPayable(1)));
    // Its invoice expires unpaid.
    assert_eq!(payable_ticket_count(&tickets, NOW + HOUR), 0);
    assert_eq!(check_refund_session(0, true), Ok(()));
    assert_eq!(check_refund_session(0, false), Err(RefundError::NoSession));
}

#[test]
fn a_refund_keeps_back_no_more_than_its_fee() {
    let now = SECONDS;
    assert_eq!(
        mint_terms(PRICE, 300, now),
        Ok(MintTerms { fee_sats: 300, owed_msat: 49_700_000, deadline: now as u32 + 3_600 })
    );
    assert_eq!(
        mint_terms(200, 300, now),
        Ok(MintTerms { fee_sats: 199, owed_msat: 1_000, deadline: now as u32 + 3_600 })
    );
    assert_eq!(mint_terms(0, 300, now), Err(RefundError::NothingLeft));
    assert_eq!(mint_terms(u64::MAX, 300, now), Err(RefundError::NothingLeft));
    assert_eq!(mint_terms(PRICE, 300, -3_601), Err(RefundError::ClockOutOfRange));
}

#[test]
fn a_broken_record_refunds_nothing() {
    let (_, mut escrow) = funded();
    let opened = |escrow: &TicketArkEscrow| refundable(escrow, 0, SECONDS).unwrap_err();
    escrow.vtxo_sats = None;
    assert_eq!(opened(&escrow), RefundError::NoAmount);
    escrow.vtxo_outpoint = Some("nope".to_string());
    assert_eq!(opened(&escrow), RefundError::InvalidOutput);
    escrow.vtxo_outpoint = None;
    assert_eq!(opened(&escrow), RefundError::Unfunded);
    let mut refund = minted(5, SECONDS);
    assert_eq!(resume_refund(&refund).unwrap_err(), RefundError::NoCheckpoint);
    refund.ark_txid = Some("nope".to_string());
    refund.checkpoint_psbt = Some("nope".to_string());
    assert_eq!(resume_refund(&refund).unwrap_err(), RefundError::InvalidTxid);
    refund.ark_txid = Some(txid_text(&outpoint(1, 0)));
    assert_eq!(resume_refund(&refund).unwrap_err(), RefundError::InvalidCheckpoint);
    refund.checkpoint_psbt = Some("cafe".to_string());
    assert_eq!(resume_refund(&refund).unwrap_err(), RefundError::InvalidCheckpoint);
    refund.checkpoint_psbt = Some(hex::encode(checkpoint()));
    assert!(resume_refund(&refund).is_ok());
    refund.invoice = "nope".to_string();
    assert_eq!(refund_payment(&refund, PRICE).unwrap_err(), RefundError::InvalidInvoice);
}

#[test]
fn an_escrows_output_is_read_in_one_form() {
    let (_, mut escrow) = funded();
    let mut txid = outpoint(21, 0);
    txid.txid[0] = 0xab;
    let id = txid_text(&txid);
    let mut read = |text: String| {
        escrow.vtxo_outpoint = Some(text);
        refundable(&escrow, 0, SECONDS).map(|open| open.unwrap().outpoint)
    };
    for vout in [0, 9, 10, u32::MAX] {
        let found = read(format!("{id}:{vout}")).unwrap();
        assert_eq!((found.txid, found.vout), (txid.txid.clone(), vout));
    }
    let found = read(format!("{}:7", id.to_uppercase())).unwrap();
    assert_eq!((found.txid, found.vout), (txid.txid.clone(), 7));
    for refused in [
        format!("{id}:01"),
        format!("{id}:+1"),
        format!("{id}:"),
        format!("{id}:4294967296"),
        format!("{id}-1"),
        format!("{id}:1:1"),
        format!("{}:1", &id[1..]),
        format!("{id}0:1"),
        id.clone(),
    ] {
        assert_eq!(read(refused).unwrap_err(), RefundError::InvalidOutput);
    }
}

#[test]
fn a_player_is_told_of_their_refund() {
    let (ticket, escrow) = funded();
    let player = "player".to_string();
    let ticket = Some(ticket);
    let told = get_ticket_refund(
        &ticket,
        &player,
        COMPETITION,
        Some(in_state(ArkRefundState::Submitted)),
        &Some(escrow),
    )
    .unwrap()
    .unwrap();
    assert_eq!(told.state, ArkRefundState::Submitted.as_str());
    assert_eq!(told.paid_sats, PRICE - 300);
    assert_eq!(told.payment_hash, hex::encode([7; 32]));
    assert!(get_ticket_refund(&ticket, &player, COMPETITION, None, &None).unwrap().is_none());
    let refused = |ticket: &Option<Ticket>, player: &str, competition: u128| {
        get_ticket_refund(ticket, &player.to_string(), competition, None, &None).unwrap_err()
    };
    assert_eq!(refused(&None, "player", COMPETITION), RequestError::TicketNotFound);
    assert_eq!(refused(&ticket, "mallory", COMPETITION), RequestError::NotReservedByUser);
    assert_eq!(refused(&ticket, "player", 2), RequestError::OtherCompetition);
    for state in [
        ArkRefundState::Minted,
        ArkRefundState::Submitting,
        ArkRefundState::Submitted,
        ArkRefundState::Paid,
        ArkRefundState::Settled,
    ] {
        assert_eq!(ArkRefundState::from_word(&state.as_str().to_string()), Some(state));
    }
    assert_eq!(ArkRefundState::from_word(&"lost".to_string()), None);
}
