use competitions::clock::{unix_timestamp, HOUR, SECOND};
use competitions::competition::{Competition, CreateEvent};
use competitions::entries::Ticket;
use competitions::lifecycle::Coordinator;
use competitions::tickets::{
    check_deletion, check_open_for_tickets, get_ticket_status, invoice_expiry_seconds,
    ticket_response, RegistrationAssignment, RequestError, TicketRequest, TicketStatus, TicketStep,
    RESERVATION,
};

const NOW: i128 = 1_800_000_000 * SECOND;
const DAY: i128 = 24 * HOUR;

fn coordinator(escrow_enabled: bool, keymeld_enabled: bool) -> Coordinator {
    Coordinator {
        escrow_enabled,
        keymeld_enabled,
        required_confirmations: 1,
        invoice_settlement_confirmations: 1,
        relative_locktime_block_delta: 72,
        automatic_payouts: false,
        automatic_payout_max_fee_rate: 0,
        tolerated_errors: 3,
        kept_settlement_errors: 5,
    }
}

fn event() -> CreateEvent {
    CreateEvent {
        id: 1,
        signing_date: NOW + 30 * DAY,
        start_observation_date: NOW + HOUR,
        end_observation_date: NOW + 29 * DAY,
        locations: vec![],
        number_of_values_per_entry: 1,
        number_of_places_win: 1,
        total_allowed_entries: 1,
        entry_fee: 1_000,
        coordinator_fee_percentage: 10,
        total_competition_pool: 900,
        relative_locktime_block_delta: None,
        unlisted: false,
    }
}

fn competition() -> Competition {
    Competition::new(event(), NOW)
}

fn ticket() -> Ticket {
    Ticket {
        id: 201,
        competition_id: 1,
        entry_id: None,
        encrypted_preimage: hex::encode([1; 32]),
        hash: hash(),
        payment_request: None,
        invoice_expires_at: None,
        expiry: NOW,
        ephemeral_pubkey: None,
        reserved_by: Some("player".to_string()),
        reserved_at: Some(NOW),
        paid_at: None,
        settled_at: None,
        escrow_transaction: None,
    }
}

fn hash() -> String {
    hex::encode(dlctix::hashlock::sha256(&[1; 32]))
}

fn offer(escrow: bool, keymeld: bool, ticket: &Ticket) -> (TicketRequest, TicketStep) {
    coordinator(escrow, keymeld).create_ticket_response(ticket, &competition(), 100, NOW).unwrap()
}

#[test]
fn funding_reservations_cover_future_competitions_and_extend_overdue_sessions() {
    let now = 1_800_000_000 * SECOND;
    let signing_date = now + 30 * DAY;
    let competition = Competition::new(
        CreateEvent {
            id: uuid::Uuid::now_v7().as_u128(),
            signing_date,
            start_observation_date: now + 28 * DAY,
            end_observation_date: now + 29 * DAY,
            locations: vec![],
            number_of_values_per_entry: 1,
            number_of_places_win: 1,
            total_allowed_entries: 1,
            entry_fee: 1_000,
            coordinator_fee_percentage: 10,
            total_competition_pool: 900,
            relative_locktime_block_delta: None,
            unlisted: false,
        },
        now,
    );
    assert_eq!(
        competition.funding_reservation_deadline(now).unwrap(),
        unix_timestamp(signing_date + DAY) as u64,
    );
    let restarted_at = signing_date + 2 * DAY;
    assert_eq!(
        competition.funding_reservation_deadline(restarted_at).unwrap(),
        unix_timestamp(restarted_at + DAY) as u64,
    );
}

#[test]
fn times_are_told_in_whole_seconds_rounded_down() {
    assert_eq!(unix_timestamp(NOW + 999_999_999), 1_800_000_000);
    assert_eq!(unix_timestamp(-1), -1);
    assert_eq!(unix_timestamp(-SECOND), -1);
    assert_eq!(unix_timestamp(-SECOND - 1), -2);
}

#[test]
fn only_a_stale_reservation_lapses() {
    let mut ticket = ticket();
    assert_eq!(ticket.get_status(NOW), TicketStatus::Reserved);
    assert_eq!(ticket.get_status(NOW + RESERVATION), TicketStatus::Reserved);
    assert_eq!(ticket.get_status(NOW + RESERVATION + 1), TicketStatus::Expired);
    ticket.paid_at = Some(NOW);
    assert_eq!(ticket.get_status(NOW + DAY), TicketStatus::Paid);
    ticket.settled_at = Some(NOW);
    assert_eq!(ticket.get_status(NOW + DAY), TicketStatus::Settled);
    ticket.entry_id = Some(7);
    assert_eq!(ticket.get_status(NOW + DAY), TicketStatus::Used);
    ticket = self::ticket();
    ticket.reserved_at = None;
    assert_eq!(ticket.get_status(NOW), TicketStatus::Created);
}

#[test]
fn a_ticket_is_told_of_only_to_its_holder() {
    let asked = |ticket: Option<Ticket>, player: &str, competition_id: u128| {
        get_ticket_status(&ticket, &player.to_string(), competition_id, NOW)
    };
    assert_eq!(asked(Some(ticket()), "player", 1), Ok(TicketStatus::Reserved));
    assert_eq!(asked(None, "player", 1), Err(RequestError::TicketNotFound));
    assert_eq!(asked(Some(ticket()), "player", 2), Err(RequestError::OtherCompetition));
    assert_eq!(asked(Some(ticket()), "other", 1), Err(RequestError::NotReservedByUser));
}

#[test]
fn a_competition_gives_out_tickets_while_it_has_places() {
    assert_eq!(check_open_for_tickets(&competition()), Ok(()));
    let mut full = competition();
    full.total_entries = 1;
    assert_eq!(check_open_for_tickets(&full), Err(RequestError::CompetitionFull));
    let mut cancelled = competition();
    cancelled.cancelled_at = Some(NOW);
    assert_eq!(check_open_for_tickets(&cancelled), Err(RequestError::NotAccepting));
}

#[test]
fn competitions_are_made_and_deleted_within_limits() {
    let mut five = event();
    five.number_of_places_win = 5;
    let (mut rules, five) = (coordinator(false, true), Competition::new(five, NOW));
    assert_eq!(rules.check_creation(&five, true), Ok(()));
    assert_eq!(rules.check_creation(&five, false), Ok(()), "nothing is paid automatically");
    rules.automatic_payouts = true;
    assert_eq!(rules.check_creation(&five, true), Ok(()));
    assert_eq!(
        rules.check_creation(&five, false),
        Err(RequestError::BeyondCapacity {
            players: five.event_submission.total_allowed_entries,
            places: 5
        })
    );
    let mut six = event();
    six.number_of_places_win = 6;
    assert_eq!(
        rules.check_creation(&Competition::new(six, NOW), true),
        Err(RequestError::TooManyWinners(6))
    );
    let mut paid = competition();
    assert_eq!(check_deletion(&paid), Ok(()));
    paid.total_paid_entries = 2;
    assert_eq!(check_deletion(&paid), Err(RequestError::HasPaidEntries(2)));
}

#[test]
fn an_invoice_is_good_until_the_contract_is_signed() {
    assert_eq!(invoice_expiry_seconds(NOW + HOUR, NOW), 3_600 + 600);
    assert_eq!(invoice_expiry_seconds(NOW, NOW), 900);
    assert_eq!(invoice_expiry_seconds(NOW + 301 * SECOND, NOW), 901);
    assert_eq!(invoice_expiry_seconds(NOW - HOUR, NOW), 900);
}

#[test]
fn a_ticket_is_offered_with_its_escrow_and_invoice() {
    let (mut request, step) = offer(true, true, &ticket());
    assert_eq!(request.amount_sats, 1_100);
    assert_eq!(hex::encode(&request.payment_hash), hash());
    assert!(matches!(
        step,
        TicketStep::BuildEscrow { amount_sats: 1_000, deadline }
            if deadline == unix_timestamp(NOW + 31 * DAY) as u64
    ));
    let step = request.escrow_was_built(&Some(vec![0xca, 0xfe]));
    assert!(matches!(&step, TicketStep::StoreEscrow { escrow_tx } if escrow_tx == "cafe"));
    let step = request.escrow_was_stored("cafe".to_string(), true, NOW);
    assert!(matches!(
        &step,
        TicketStep::AddInvoice { amount_sats: 1_100, expiry_seconds: 4_200, payment_hash, escrow_tx }
            if *payment_hash == hash() && escrow_tx == "cafe"
    ));
    let step = request.invoice_was_added(Some("lnbc".to_string()), 4_200, NOW);
    assert!(matches!(
        &step,
        TicketStep::StoreInvoice { payment_request, expires_at }
            if payment_request == "lnbc" && *expires_at == NOW + 4_200 * SECOND
    ));
    let step = request.invoice_was_stored("lnbc".to_string(), true);
    assert!(matches!(step, TicketStep::AssignRegistration));
    assert!(matches!(request.registration_was_assigned(Ok(())), TicketStep::Respond));
    let response = ticket_response(
        request,
        Some("https://keymeld.example".to_string()),
        Some(RegistrationAssignment {
            session_id: "session".to_string(),
            enclave_public_key: "enclave".to_string(),
            text: "{\"epoch\":2}".to_string(),
        }),
    );
    assert_eq!((response.ticket_id, response.keymeld_user_id), (201, 201));
    assert_eq!(response.payment_request, "lnbc");
    assert_eq!(response.escrow_tx.as_deref(), Some("cafe"));
    assert_eq!(response.payment_hash, hash());
    assert_eq!(response.amount_sats, 1_100);
    assert_eq!(response.keymeld_gateway_url.as_deref(), Some("https://keymeld.example"));
    assert_eq!(response.keymeld_session_id.as_deref(), Some("session"));
    assert_eq!(response.keymeld_enclave_public_key.as_deref(), Some("enclave"));
    let registration = response.keymeld_registration.unwrap();
    assert_eq!(registration.session_id, "session");
    assert_eq!(registration.text, "{\"epoch\":2}");
}

#[test]
fn a_repeated_offer_reuses_its_invoice() {
    let mut again = ticket();
    again.payment_request = Some("lnbc".to_string());
    let (request, step) = offer(false, false, &again);
    assert!(matches!(step, TicketStep::Respond));
    assert_eq!(ticket_response(request, None, None).payment_request, "lnbc");
    let (_, step) = offer(false, false, &ticket());
    assert!(matches!(
        step,
        TicketStep::AddInvoice { escrow_tx, .. } if escrow_tx.is_empty()
    ));
}

#[test]
fn an_offer_that_fails_is_refused() {
    let mut unreadable = ticket();
    unreadable.encrypted_preimage = "nope".to_string();
    assert_eq!(
        coordinator(false, false)
            .create_ticket_response(&unreadable, &competition(), 0, NOW)
            .unwrap_err(),
        RequestError::InvalidPreimage
    );
    let (mut request, _) = offer(true, true, &ticket());
    assert!(matches!(
        request.escrow_was_built(&None),
        TicketStep::Refuse(RequestError::EscrowFailed)
    ));
    assert!(matches!(
        request.escrow_was_stored("cafe".to_string(), false, NOW),
        TicketStep::Refuse(RequestError::ReservationChanged)
    ));
    assert!(request.escrow_tx.is_none());
    assert!(matches!(
        request.invoice_was_added(None, 4_200, NOW),
        TicketStep::Refuse(RequestError::InvoiceFailed)
    ));
    let step = request.invoice_was_stored("lnbc".to_string(), false);
    assert!(matches!(
        &step,
        TicketStep::CancelInvoice { payment_hash } if *payment_hash == hash()
    ));
    assert!(request.payment_request.is_none());
    assert!(matches!(
        request.invoice_was_cancelled(),
        TicketStep::Refuse(RequestError::ReservationChanged)
    ));
    assert!(matches!(
        request.registration_was_assigned(Err(RequestError::KeymeldFailed)),
        TicketStep::Refuse(RequestError::KeymeldFailed)
    ));
}
