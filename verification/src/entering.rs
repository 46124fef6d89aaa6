//! Entering a competition, and what an entry's player asks for and sends while its contract is
//! signed.

use crate::competition::{Competition, CompetitionState, Uuid};
use crate::contract::{ContractParameters, OutPoint, SigMap};
use crate::contracting::ParticipantRegistrationData;
use crate::encoding::{
    hash32, hex_bytes, hex_decode, hex_encode, hex_round_trips, hex_text, is_hex, is_scalar,
    is_x_only_key, nibble, parse_hash32, point_from_hex, point_of_hex, without_0x,
};
use crate::entries::{AddEventEntry, RegistrationContext, Ticket, UserEntry, WeatherChoices};
use crate::ids::{uuid_chars, uuid_to_string, uuid_version, version};
use crate::lifecycle::Coordinator;
use crate::registration::{is_registered_alike, registers_alike, TicketRegistration};
use crate::sealing::{
    can_be_sealed, hex_takes_a_byte_each, is_key_pair, nip44_seal, nip44_text, MOST_SEALED,
};
use vstd::prelude::*;

verus! {

/// Why an entry, or what its player asks for or sends, is refused.
#[derive(Clone, Copy, PartialEq, Eq, Structural, Debug)]
pub enum EntryError {
    CompetitionNotFound,
    /// The competition takes no more entries.
    NotAccepting,
    /// The entry's key is no point.
    InvalidKey,
    /// The entry's payout hash is no hash.
    InvalidPayoutHash,
    /// The entry's id does not begin with the time.
    InvalidId,
    /// So many values may be chosen, and so many are.
    TooManyChoices { allowed: usize, got: u128 },
    /// A station is none of the competition's.
    UnknownLocation,
    TicketNotFound,
    NotReservedByUser,
    NotPaid,
    /// The ticket was used for an entry before.
    AlreadyUsed,
    /// The ticket is for another competition.
    OtherCompetition,
    /// The ticket's escrow is locked with another key than the entry's.
    EscrowKeyMismatch,
    NoKeymeldSession,
    /// The entry's key is not sealed for Keymeld.
    MissingSealedKey,
    /// The entry has no key to authenticate with.
    MissingAuthKey,
    /// The entry has no context to register under.
    MissingContext,
    /// Keymeld's session does not take the registration.
    InvalidContext,
    /// The ticket was paid with another registration.
    OtherRegistration,
    /// The player has no entry in the competition.
    NoEntry,
    /// The player has no such entry in the competition.
    EntryNotFound(Uuid),
    /// The contract is not built yet.
    NoContract,
    /// The funding transaction is not built yet.
    NoFunding,
    /// The coordinator's nonces are not published yet.
    NoNonces,
    /// The nonces are not aggregated yet.
    NoAggregate,
    /// The coordinator's partial signatures are not made yet.
    NoPartialSignatures,
    /// What was sent cannot be read.
    Unreadable,
    /// What was sent is for the coordinator's own transactions.
    NotThePlayers,
    /// It was sent before.
    AlreadySubmitted,
    /// Keymeld has no gateway that players can reach.
    NoGateway,
    /// The player's public key is none.
    InvalidUserKey,
    /// The session's secret could not be sealed.
    SealingFailed,
}

/// An entry as a player sends it. Keys and hashes are in hexadecimal.
#[derive(Debug)]
pub struct AddEntry {
    pub id: Uuid,
    pub event_id: Uuid,
    pub ticket_id: Uuid,
    pub ephemeral_pubkey: String,
    pub payout_hash: String,
    pub encrypted_keymeld_private_key: Option<String>,
    pub keymeld_auth_pubkey: Option<String>,
    pub keymeld_registration_context: Option<RegistrationContext>,
    pub expected_observations: Vec<WeatherChoices>,
}

/// The one text that the key of an entry and its payout hash are stored as, or why they cannot be.
pub open spec fn stored_keys(key: Seq<char>, payout_hash: Seq<char>) -> Result<
    (Seq<char>, Seq<char>),
    EntryError,
> {
    match point_of_hex(key) {
        None => Err(EntryError::InvalidKey),
        Some(point) => match hash32(payout_hash) {
            None => Err(EntryError::InvalidPayoutHash),
            Some(hash) => Ok((hex_text(point), hex_text(hash))),
        },
    }
}

/// Read the keys of an entry, and store them in their one encoding, so that the same key in another
/// case or with a prefix is known for the same. What the contract's builder could not read is
/// refused, so that one entry cannot spoil a competition. What is stored is stored as itself again.
pub fn validate_entry_keys(entry: &mut AddEntry) -> (validated: Result<(), EntryError>)
    ensures
        match stored_keys(old(entry).ephemeral_pubkey@, old(entry).payout_hash@) {
            Ok((key, hash)) => validated is Ok && final(entry).ephemeral_pubkey@ == key
                && final(entry).payout_hash@ == hash && *final(entry) == (AddEntry {
                ephemeral_pubkey: final(entry).ephemeral_pubkey,
                payout_hash: final(entry).payout_hash,
                ..*old(entry)
            }),
            Err(error) => validated == Err::<(), EntryError>(error) && *final(entry) == *old(entry),
        },
        validated is Ok ==> stored_keys(final(entry).ephemeral_pubkey@, final(entry).payout_hash@)
            == Ok::<(Seq<char>, Seq<char>), EntryError>(
            (final(entry).ephemeral_pubkey@, final(entry).payout_hash@),
        ),
{
    let point = match point_from_hex(entry.ephemeral_pubkey.as_str()) {
        Some(point) => point,
        None => {
            return Err(EntryError::InvalidKey);
        },
    };
    let hash = match parse_hash32(entry.payout_hash.as_str()) {
        Some(hash) => hash,
        None => {
            return Err(EntryError::InvalidPayoutHash);
        },
    };
    proof {
        stored_hashes_read_back(entry.payout_hash@);
    }
    entry.ephemeral_pubkey = hex_encode(&point);
    entry.payout_hash = hex_encode(&hash);
    Ok(())
}

/// How many values are chosen at one station.
pub open spec fn choices_at(choices: WeatherChoices) -> nat {
    (if choices.temp_high is Some {
        1nat
    } else {
        0nat
    }) + (if choices.temp_low is Some {
        1nat
    } else {
        0nat
    }) + (if choices.wind_speed is Some {
        1nat
    } else {
        0nat
    })
}

/// How many values were chosen when there were first more than `allowed`, from the `from`th station
/// on, where there were `counted` before.
pub open spec fn first_excess(
    observations: Seq<WeatherChoices>,
    allowed: nat,
    counted: nat,
    from: int,
) -> Option<nat>
    decreases observations.len() - from,
{
    if from < 0 || from >= observations.len() {
        None
    } else {
        let now = counted + choices_at(observations[from]);
        if now > allowed {
            Some(now)
        } else {
            first_excess(observations, allowed, now, from + 1)
        }
    }
}

/// The station is one of the locations.
pub open spec fn is_location(locations: Seq<String>, station: Seq<char>) -> bool {
    exists|i: int| 0 <= i < locations.len() && (#[trigger] locations[i])@ == station
}

/// Whether an entry plays by the rules of its competition.
pub open spec fn entry_check(
    id: Uuid,
    observations: Seq<WeatherChoices>,
    competition: Competition,
) -> Result<(), EntryError> {
    let event = competition.event_submission;
    if version(id) != 7 {
        Err(EntryError::InvalidId)
    } else {
        match first_excess(observations, event.number_of_values_per_entry as nat, 0, 0) {
            Some(got) => Err(
                EntryError::TooManyChoices {
                    allowed: event.number_of_values_per_entry,
                    got: got as u128,
                },
            ),
            None => if forall|i: int|
                0 <= i < observations.len() ==> is_location(
                    event.locations@,
                    (#[trigger] observations[i]).stations@,
                ) {
                Ok(())
            } else {
                Err(EntryError::UnknownLocation)
            },
        }
    }
}

/// The number of values that are chosen at one station.
fn count_choices(choices: &WeatherChoices) -> (count: u128)
    ensures
        count == choices_at(*choices),
        count <= 3,
{
    let mut count: u128 = 0;
    if choices.temp_high.is_some() {
        count = count + 1;
    }
    if choices.temp_low.is_some() {
        count = count + 1;
    }
    if choices.wind_speed.is_some() {
        count = count + 1;
    }
    count
}

/// Whether the station is one of the locations.
fn contains_location(locations: &Vec<String>, station: &String) -> (found: bool)
    ensures
        found == is_location(locations@, station@),
{
    let mut i: usize = 0;
    while i < locations.len()
        invariant
            i <= locations@.len(),
            forall|j: int| 0 <= j < i ==> (#[trigger] locations@[j])@ != station@,
        decreases locations@.len() - i,
    {
        if locations[i] == *station {
            assert(locations@[i as int]@ == station@);
            return true;
        }
        i = i + 1;
    }
    false
}

/// Check that an entry plays by the rules of its competition: its id begins with the time, it
/// chooses no more values than are allowed, and only at the competition's stations.
pub fn validate_entry(
    id: Uuid,
    observations: &Vec<WeatherChoices>,
    competition: &Competition,
) -> (validated: Result<(), EntryError>)
    ensures
        validated == entry_check(id, observations@, *competition),
{
    if uuid_version(id) != 7 {
        return Err(EntryError::InvalidId);
    }
    let allowed: usize = competition.event_submission.number_of_values_per_entry;
    let mut counted: u128 = 0;
    let mut i: usize = 0;
    while i < observations.len()
        invariant
            i <= observations@.len(),
            counted <= allowed,
            allowed == competition.event_submission.number_of_values_per_entry,
            version(id) == 7,
            first_excess(observations@, allowed as nat, 0, 0) == first_excess(
                observations@,
                allowed as nat,
                counted as nat,
                i as int,
            ),
        decreases observations@.len() - i,
    {
        counted = counted + count_choices(&observations[i]);
        if counted > allowed as u128 {
            return Err(EntryError::TooManyChoices { allowed, got: counted });
        }
        i = i + 1;
    }
    let mut j: usize = 0;
    while j < observations.len()
        invariant
            j <= observations@.len(),
            version(id) == 7,
            first_excess(
                observations@,
                competition.event_submission.number_of_values_per_entry as nat,
                0,
                0,
            ) is None,
            forall|k: int|
                0 <= k < j ==> is_location(
                    competition.event_submission.locations@,
                    (#[trigger] observations@[k]).stations@,
                ),
        decreases observations@.len() - j,
    {
        if !contains_location(&competition.event_submission.locations, &observations[j].stations) {
            assert(!is_location(
                competition.event_submission.locations@,
                observations@[j as int].stations@,
            ));
            return Err(EntryError::UnknownLocation);
        }
        j = j + 1;
    }
    Ok(())
}

/// Whether a ticket is the player's, paid for, unused, and for this entry.
pub open spec fn ticket_check(ticket: Ticket, pubkey: Seq<char>, event_id: Uuid, key: Seq<char>) -> Result<
    (),
    EntryError,
> {
    if !ticket.reserved_for(pubkey) {
        Err(EntryError::NotReservedByUser)
    } else if ticket.paid_at is None {
        Err(EntryError::NotPaid)
    } else if ticket.entry_id is Some {
        Err(EntryError::AlreadyUsed)
    } else if ticket.competition_id != event_id {
        Err(EntryError::OtherCompetition)
    } else if ticket.ephemeral_pubkey matches Some(locked) && locked@ != key {
        Err(EntryError::EscrowKeyMismatch)
    } else {
        Ok(())
    }
}

/// Check that a ticket is the player's, paid for, unused, and for this entry.
pub fn check_entry_ticket(ticket: &Ticket, pubkey: &String, event_id: Uuid, key: &String) -> (
    checked: Result<(), EntryError>)
    ensures
        checked == ticket_check(*ticket, pubkey@, event_id, key@),
{
    if !ticket.is_reserved_for(pubkey) {
        return Err(EntryError::NotReservedByUser);
    }
    if ticket.paid_at.is_none() {
        return Err(EntryError::NotPaid);
    }
    if ticket.entry_id.is_some() {
        return Err(EntryError::AlreadyUsed);
    }
    if ticket.competition_id != event_id {
        return Err(EntryError::OtherCompetition);
    }
    if let Some(locked) = &ticket.ephemeral_pubkey {
        if *locked != *key {
            return Err(EntryError::EscrowKeyMismatch);
        }
    }
    Ok(())
}

/// What an entry lacks for Keymeld, if anything.
pub open spec fn lacks_registration(entry: AddEntry, has_session: bool) -> Option<EntryError> {
    if !has_session {
        Some(EntryError::NoKeymeldSession)
    } else if entry.encrypted_keymeld_private_key is None {
        Some(EntryError::MissingSealedKey)
    } else if entry.keymeld_auth_pubkey is None {
        Some(EntryError::MissingAuthKey)
    } else if entry.keymeld_registration_context is None {
        Some(EntryError::MissingContext)
    } else {
        None
    }
}

impl Coordinator {
    /// Whether an entry is taken, and with which keys it is stored.
    pub open spec fn admits(
        self,
        entry: AddEntry,
        pubkey: Seq<char>,
        competition: Option<Competition>,
        ticket: Option<Ticket>,
        registered: Option<TicketRegistration>,
        has_session: bool,
    ) -> Result<(Seq<char>, Seq<char>), EntryError> {
        match competition {
            None => Err(EntryError::CompetitionNotFound),
            Some(competition) => if !(competition.state() is Created) {
                Err(EntryError::NotAccepting)
            } else {
                match stored_keys(entry.ephemeral_pubkey@, entry.payout_hash@) {
                    Err(error) => Err(error),
                    Ok(keys) => match entry_check(
                        entry.id,
                        entry.expected_observations@,
                        competition,
                    ) {
                        Err(error) => Err(error),
                        Ok(_) => match ticket {
                            None => Err(EntryError::TicketNotFound),
                            Some(ticket) => match ticket_check(
                                ticket,
                                pubkey,
                                entry.event_id,
                                keys.0,
                            ) {
                                Err(error) => Err(error),
                                Ok(_) => if self.keymeld_enabled {
                                    match lacks_registration(entry, has_session) {
                                        Some(error) => Err(error),
                                        None => if registers_alike(entry, registered) {
                                            Ok(keys)
                                        } else {
                                            Err(EntryError::OtherRegistration)
                                        },
                                    }
                                } else {
                                    Ok(keys)
                                },
                            },
                        },
                    },
                }
            },
        }
    }

    /// Take an entry, or tell why not. `competition` and `ticket` are those that the entry names;
    /// `registered` is what the player registered for the ticket before they paid, if they did; and
    /// `has_session` is whether the competition has a Keymeld session. Where Keymeld holds the
    /// players' keys, what is returned has still to be checked against that session.
    pub fn add_entry(
        &self,
        entry: &mut AddEntry,
        pubkey: &String,
        competition: &Option<Competition>,
        ticket: &Option<Ticket>,
        registered: &Option<TicketRegistration>,
        has_session: bool,
    ) -> (added: Result<Option<ParticipantRegistrationData>, EntryError>)
        ensures
            match self.admits(
                *old(entry),
                pubkey@,
                *competition,
                *ticket,
                *registered,
                has_session,
            ) {
                Err(error) => added matches Err(told) && told == error,
                Ok((key, hash)) => {
                    &&& added is Ok
                    &&& final(entry).ephemeral_pubkey@ == key
                    &&& final(entry).payout_hash@ == hash
                    &&& *final(entry) == (AddEntry {
                        ephemeral_pubkey: final(entry).ephemeral_pubkey,
                        payout_hash: final(entry).payout_hash,
                        ..*old(entry)
                    })
                    &&& added->Ok_0 is Some == self.keymeld_enabled
                    &&& added->Ok_0 matches Some(registration) ==> registration.user_id
                        == old(entry).ticket_id && Some(registration.encrypted_private_key) == old(entry).encrypted_keymeld_private_key && registration.public_key@ == key
                        && Some(registration.auth_pubkey) == old(entry).keymeld_auth_pubkey && Some(
                        registration.context,
                    ) == old(entry).keymeld_registration_context
                },
            },
    {
        let competition = match competition {
            Some(competition) => competition,
            None => {
                return Err(EntryError::CompetitionNotFound);
            },
        };
        if !matches!(competition.get_state(), CompetitionState::Created) {
            return Err(EntryError::NotAccepting);
        }
        match validate_entry_keys(entry) {
            Ok(_) => {},
            Err(error) => {
                return Err(error);
            },
        }
        match validate_entry(entry.id, &entry.expected_observations, competition) {
            Ok(_) => {},
            Err(error) => {
                return Err(error);
            },
        }
        let ticket = match ticket {
            Some(ticket) => ticket,
            None => {
                return Err(EntryError::TicketNotFound);
            },
        };
        match check_entry_ticket(ticket, pubkey, entry.event_id, &entry.ephemeral_pubkey) {
            Ok(_) => {},
            Err(error) => {
                return Err(error);
            },
        }
        if !self.keymeld_enabled {
            return Ok(None);
        }
        if !has_session {
            return Err(EntryError::NoKeymeldSession);
        }
        let encrypted_private_key = match &entry.encrypted_keymeld_private_key {
            Some(sealed) => sealed.clone(),
            None => {
                return Err(EntryError::MissingSealedKey);
            },
        };
        let auth_pubkey = match &entry.keymeld_auth_pubkey {
            Some(key) => key.clone(),
            None => {
                return Err(EntryError::MissingAuthKey);
            },
        };
        let context = match &entry.keymeld_registration_context {
            Some(context) => context.duplicate(),
            None => {
                return Err(EntryError::MissingContext);
            },
        };
        if !is_registered_alike(entry, registered) {
            return Err(EntryError::OtherRegistration);
        }
        let public_key = entry.ephemeral_pubkey.clone();
        Ok(
            Some(
                ParticipantRegistrationData {
                    user_id: entry.ticket_id,
                    encrypted_private_key,
                    public_key,
                    auth_pubkey,
                    context,
                },
            ),
        )
    }
}

/// Keymeld's session takes the registration of an entry, or refuses it.
pub fn registration_was_checked(valid: bool) -> (checked: Result<(), EntryError>)
    ensures
        checked == if valid {
            Ok::<(), EntryError>(())
        } else {
            Err::<(), EntryError>(EntryError::InvalidContext)
        },
{
    if valid {
        Ok(())
    } else {
        Err(EntryError::InvalidContext)
    }
}

impl AddEntry {
    /// The entry as it is stored for the player with the key `pubkey`, with nothing signed, paid or
    /// sent yet.
    pub fn into_user_entry(self, pubkey: String) -> (stored: UserEntry)
        ensures
            stored == (UserEntry {
                id: self.id,
                event_id: self.event_id,
                ticket_id: self.ticket_id,
                pubkey,
                ephemeral_pubkey: self.ephemeral_pubkey,
                ephemeral_privatekey: None,
                payout_hash: self.payout_hash,
                payout_preimage: None,
                encrypted_keymeld_private_key: self.encrypted_keymeld_private_key,
                keymeld_auth_pubkey: self.keymeld_auth_pubkey,
                keymeld_registration_context: self.keymeld_registration_context,
                public_nonces: None,
                partial_signatures: None,
                funding_psbt_base64: None,
                entry_submission: AddEventEntry {
                    id: self.id,
                    event_id: self.event_id,
                    expected_observations: self.expected_observations,
                },
                signed_at: None,
                paid_at: None,
                paid_out_at: None,
                sellback_broadcasted_at: None,
                reclaimed_broadcasted_at: None,
            }),
    {
        UserEntry {
            id: self.id,
            event_id: self.event_id,
            ticket_id: self.ticket_id,
            pubkey,
            ephemeral_pubkey: self.ephemeral_pubkey,
            ephemeral_privatekey: None,
            payout_hash: self.payout_hash,
            payout_preimage: None,
            encrypted_keymeld_private_key: self.encrypted_keymeld_private_key,
            keymeld_auth_pubkey: self.keymeld_auth_pubkey,
            keymeld_registration_context: self.keymeld_registration_context,
            public_nonces: None,
            partial_signatures: None,
            funding_psbt_base64: None,
            entry_submission: AddEventEntry {
                id: self.id,
                event_id: self.event_id,
                expected_observations: self.expected_observations,
            },
            signed_at: None,
            paid_at: None,
            paid_out_at: None,
            sellback_broadcasted_at: None,
            reclaimed_broadcasted_at: None,
        }
    }
}

/// What a player needs to sign the contract.
#[derive(Debug)]
pub struct FundedContract {
    pub contract_params: ContractParameters,
    pub funding_outpoint: OutPoint,
    pub funding_psbt_base64: String,
    pub keymeld: Option<KeymeldSigningInfo>,
}

/// What a player needs to check how Keymeld signs for them.
#[derive(Debug)]
pub struct KeymeldSigningInfo {
    pub enabled: bool,
    pub gateway_url: String,
    pub session_id: String,
    /// The session's secret, sealed for the player.
    pub encrypted_session_secret: String,
    pub authorization_manifest: String,
    pub user_id: String,
}

/// The contract of a competition that a player has an entry in, once it is built and its funding
/// too. `keymeld` is what is told of Keymeld, where anything can be.
pub fn get_contract_parameters(
    competition: Competition,
    entries: &Vec<UserEntry>,
    keymeld: Option<KeymeldSigningInfo>,
) -> (contract: Result<FundedContract, EntryError>)
    ensures
        contract == if entries@.len() == 0 {
            Err::<FundedContract, EntryError>(EntryError::NoEntry)
        } else if competition.contract_parameters is None {
            Err::<FundedContract, EntryError>(EntryError::NoContract)
        } else if competition.funding_outpoint is None || competition.funding_psbt_base64 is None {
            Err::<FundedContract, EntryError>(EntryError::NoFunding)
        } else {
            Ok::<FundedContract, EntryError>(
                FundedContract {
                    contract_params: competition.contract_parameters->0,
                    funding_outpoint: competition.funding_outpoint->0,
                    funding_psbt_base64: competition.funding_psbt_base64->0,
                    keymeld,
                },
            )
        },
{
    if entries.len() == 0 {
        return Err(EntryError::NoEntry);
    }
    let contract_params = match competition.contract_parameters {
        Some(params) => params,
        None => {
            return Err(EntryError::NoContract);
        },
    };
    let funding_outpoint = match competition.funding_outpoint {
        Some(outpoint) => outpoint,
        None => {
            return Err(EntryError::NoFunding);
        },
    };
    let funding_psbt_base64 = match competition.funding_psbt_base64 {
        Some(psbt) => psbt,
        None => {
            return Err(EntryError::NoFunding);
        },
    };
    Ok(FundedContract { contract_params, funding_outpoint, funding_psbt_base64, keymeld })
}

/// The aggregated nonces of a competition that a player has an entry in.
pub fn get_aggregate_nonces(competition: Competition, entries: &Vec<UserEntry>) -> (nonces: Result<
    SigMap,
    EntryError,
>)
    ensures
        nonces == if entries@.len() == 0 {
            Err::<SigMap, EntryError>(EntryError::NoEntry)
        } else {
            match competition.aggregated_nonces {
                Some(nonces) => Ok::<SigMap, EntryError>(nonces),
                None => Err::<SigMap, EntryError>(EntryError::NoAggregate),
            }
        },
{
    if entries.len() == 0 {
        return Err(EntryError::NoEntry);
    }
    match competition.aggregated_nonces {
        Some(nonces) => Ok(nonces),
        None => Err(EntryError::NoAggregate),
    }
}

/// A Keymeld session as it is stored, as far as players are told of it.
#[derive(Debug)]
pub struct StoredKeymeldSession {
    pub session_id: String,
    pub authorization_manifest: String,
}

/// Why a player is not told how Keymeld signs for them, before anything is sealed.
pub open spec fn signing_info_fault(
    ticket: Ticket,
    session: Option<StoredKeymeldSession>,
    gateway_url: Option<String>,
    user_pubkey: Seq<char>,
) -> Option<EntryError> {
    if ticket.paid_at is None {
        Some(EntryError::NotPaid)
    } else if session is None {
        Some(EntryError::NoKeymeldSession)
    } else if gateway_url is None {
        Some(EntryError::NoGateway)
    } else if !is_hex(user_pubkey) || user_pubkey.len() != 64 {
        Some(EntryError::InvalidUserKey)
    } else {
        None
    }
}

/// The session's secret can be sealed for a player: the coordinator's key and the player's are keys,
/// and the secret, in hexadecimal, is neither empty nor too long.
pub open spec fn secret_can_be_sealed(
    session_secret: Seq<u8>,
    private_key: Seq<u8>,
    user_pubkey: Seq<char>,
) -> bool {
    &&& is_scalar(private_key)
    &&& is_x_only_key(hex_bytes(user_pubkey))
    &&& 0 < 2 * session_secret.len() <= MOST_SEALED
}

/// What a player needs to check how Keymeld signs for them, once their ticket is paid for: the
/// session, with its secret sealed from the coordinator's key for theirs. Whoever has the secret key
/// of theirs reads it.
pub fn get_keymeld_signing_info(
    entry: &UserEntry,
    ticket: &Ticket,
    session: Option<StoredKeymeldSession>,
    session_secret: &Vec<u8>,
    gateway_url: Option<String>,
    private_key: &Vec<u8>,
    user_pubkey: &str,
) -> (info: Result<KeymeldSigningInfo, EntryError>)
    ensures
        match signing_info_fault(*ticket, session, gateway_url, user_pubkey@) {
            Some(error) => info matches Err(told) && told == error,
            None => match info {
                Ok(info) => {
                    &&& info.enabled
                    &&& Some(info.gateway_url) == gateway_url
                    &&& info.session_id == session->0.session_id
                    &&& info.authorization_manifest == session->0.authorization_manifest
                    &&& info.user_id@ == uuid_chars(entry.ticket_id)
                    &&& nip44_text(
                        private_key@,
                        hex_bytes(user_pubkey@),
                        info.encrypted_session_secret@,
                    ) == Some(hex_text(session_secret@))
                    &&& forall|reader: Seq<u8>, sealer: Seq<u8>|
                        is_key_pair(reader, hex_bytes(user_pubkey@)) && is_key_pair(
                            private_key@,
                            sealer,
                        ) ==> #[trigger] nip44_text(
                            reader,
                            sealer,
                            info.encrypted_session_secret@,
                        ) == Some(hex_text(session_secret@))
                },
                Err(error) => error is SealingFailed,
            },
        },
        signing_info_fault(*ticket, session, gateway_url, user_pubkey@) is None ==> (info is Ok
            == secret_can_be_sealed(session_secret@, private_key@, user_pubkey@)),
{
    if ticket.paid_at.is_none() {
        return Err(EntryError::NotPaid);
    }
    let session = match session {
        Some(session) => session,
        None => {
            return Err(EntryError::NoKeymeldSession);
        },
    };
    let gateway_url = match gateway_url {
        Some(url) => url,
        None => {
            return Err(EntryError::NoGateway);
        },
    };
    let public_key = match hex_decode(user_pubkey) {
        Some(key) => key,
        None => {
            return Err(EntryError::InvalidUserKey);
        },
    };
    if public_key.len() != 32 {
        return Err(EntryError::InvalidUserKey);
    }
    let secret_text = hex_encode(session_secret);
    proof {
        hex_takes_a_byte_each(session_secret@);
        assert(can_be_sealed(private_key@, public_key@, secret_text@) == secret_can_be_sealed(
            session_secret@,
            private_key@,
            user_pubkey@,
        ));
    }
    match nip44_seal(private_key, &public_key, secret_text.as_str()) {
        Some(encrypted_session_secret) => Ok(
            KeymeldSigningInfo {
                enabled: true,
                gateway_url,
                session_id: session.session_id,
                encrypted_session_secret,
                authorization_manifest: session.authorization_manifest,
                user_id: uuid_to_string(entry.ticket_id),
            },
        ),
        None => Err(EntryError::SealingFailed),
    }
}

/// Whether two maps of nonces or signatures are for the same transactions.
pub uninterp spec fn sig_maps_mirror(ours: Seq<char>, theirs: Seq<char>) -> Option<bool>;

/// Whether two maps of nonces or signatures are for the same transactions, from `is_mirror` of
/// `dlctix::SigMap`, which both are read into with `serde_json::from_str`. The result is named;
/// there is none where one cannot be read.
#[verifier::external_body]
fn is_mirror(ours: &str, theirs: &str) -> (mirror: Option<bool>)
    ensures
        mirror == sig_maps_mirror(ours@, theirs@),
{
    let ours: dlctix::SigMap<serde_json::Value> = serde_json::from_str(ours).ok()?;
    let theirs: dlctix::SigMap<serde_json::Value> = serde_json::from_str(theirs).ok()?;
    Some(ours.is_mirror(&theirs))
}

/// The text of a map that holds nothing.
pub const EMPTY_SIG_MAP: &'static str = "{\"by_outcome\":{},\"by_win_condition\":{}}";

impl SigMap {
    /// The text that the map is stored as.
    pub open spec fn text(self) -> Seq<char> {
        match self {
            SigMap::Empty => EMPTY_SIG_MAP@,
            SigMap::Stored(text) => text@,
        }
    }

    /// The text that the map is stored as.
    pub fn as_text(&self) -> (text: &str)
        ensures
            text@ == self.text(),
    {
        match self {
            SigMap::Empty => EMPTY_SIG_MAP,
            SigMap::Stored(text) => text.as_str(),
        }
    }
}

/// The index of the first entry with the id from the `from`th on.
pub open spec fn entry_with_id(entries: Seq<UserEntry>, id: Uuid, from: int) -> Option<int>
    decreases entries.len() - from,
{
    if from < 0 || from >= entries.len() {
        None
    } else if entries[from].id == id {
        Some(from)
    } else {
        entry_with_id(entries, id, from + 1)
    }
}

/// The index of the first entry with the id.
pub fn find_entry(entries: &Vec<UserEntry>, id: Uuid) -> (found: Option<usize>)
    ensures
        match entry_with_id(entries@, id, 0) {
            Some(at) => found matches Some(found) && found == at && found < entries@.len()
                && entries@[found as int].id == id,
            None => found is None,
        },
{
    let mut i: usize = 0;
    while i < entries.len()
        invariant
            i <= entries@.len(),
            entry_with_id(entries@, id, 0) == entry_with_id(entries@, id, i as int),
        decreases entries@.len() - i,
    {
        if entries[i].id == id {
            return Some(i);
        }
        i = i + 1;
    }
    None
}

/// Whether a player's nonces are taken.
pub open spec fn nonces_check(
    competition: Competition,
    entries: Seq<UserEntry>,
    entry_id: Uuid,
    nonces: SigMap,
) -> Result<(), EntryError> {
    if competition.contract_parameters is None {
        Err(EntryError::NoContract)
    } else {
        match competition.public_nonces {
            None => Err(EntryError::NoNonces),
            Some(published) => match sig_maps_mirror(nonces.text(), published.text()) {
                None => Err(EntryError::Unreadable),
                Some(mirror) => if mirror {
                    Err(EntryError::NotThePlayers)
                } else {
                    match entry_with_id(entries, entry_id, 0) {
                        None => Err(EntryError::EntryNotFound(entry_id)),
                        Some(at) => if entries[at].public_nonces is Some {
                            Err(EntryError::AlreadySubmitted)
                        } else {
                            Ok(())
                        },
                    }
                },
            },
        }
    }
}

/// Check the nonces that a player sends for their entry, of which `entries` are theirs in the
/// competition. A player's nonces are not for the same transactions as the coordinator's, which
/// are for all, and they are sent once.
pub fn submit_public_nonces(
    competition: &Competition,
    entries: &Vec<UserEntry>,
    entry_id: Uuid,
    public_nonces: &SigMap,
) -> (submitted: Result<(), EntryError>)
    ensures
        submitted == nonces_check(*competition, entries@, entry_id, *public_nonces),
{
    if competition.contract_parameters.is_none() {
        return Err(EntryError::NoContract);
    }
    let published = match &competition.public_nonces {
        Some(published) => published,
        None => {
            return Err(EntryError::NoNonces);
        },
    };
    match is_mirror(public_nonces.as_text(), published.as_text()) {
        None => {
            return Err(EntryError::Unreadable);
        },
        Some(mirror) => if mirror {
            return Err(EntryError::NotThePlayers);
        },
    }
    match find_entry(entries, entry_id) {
        None => Err(EntryError::EntryNotFound(entry_id)),
        Some(at) => if entries[at].public_nonces.is_some() {
            Err(EntryError::AlreadySubmitted)
        } else {
            Ok(())
        },
    }
}

/// Whether a player's signatures are taken.
pub open spec fn signatures_check(
    competition: Competition,
    entries: Seq<UserEntry>,
    entry_id: Uuid,
    partial_signatures: SigMap,
) -> Result<(), EntryError> {
    if competition.contract_parameters is None {
        Err(EntryError::NoContract)
    } else {
        match competition.partial_signatures {
            None => Err(EntryError::NoPartialSignatures),
            Some(ours) => match sig_maps_mirror(partial_signatures.text(), ours.text()) {
                None => Err(EntryError::Unreadable),
                Some(mirror) => if mirror {
                    Err(EntryError::NotThePlayers)
                } else if entry_with_id(entries, entry_id, 0) is None {
                    Err(EntryError::EntryNotFound(entry_id))
                } else {
                    Ok(())
                },
            },
        }
    }
}

/// Check the partial signatures that a player sends for their entry, of which `entries` are theirs
/// in the competition.
pub fn submit_final_signatures(
    competition: &Competition,
    entries: &Vec<UserEntry>,
    entry_id: Uuid,
    partial_signatures: &SigMap,
) -> (submitted: Result<(), EntryError>)
    ensures
        submitted == signatures_check(*competition, entries@, entry_id, *partial_signatures),
{
    if competition.contract_parameters.is_none() {
        return Err(EntryError::NoContract);
    }
    let ours = match &competition.partial_signatures {
        Some(ours) => ours,
        None => {
            return Err(EntryError::NoPartialSignatures);
        },
    };
    match is_mirror(partial_signatures.as_text(), ours.as_text()) {
        None => {
            return Err(EntryError::Unreadable);
        },
        Some(mirror) => if mirror {
            return Err(EntryError::NotThePlayers);
        },
    }
    match find_entry(entries, entry_id) {
        None => Err(EntryError::EntryNotFound(entry_id)),
        Some(_) => Ok(()),
    }
}

/// What was sent for an entry was stored; `stored` is false where it had been sent before.
pub fn submission_was_stored(stored: bool) -> (submitted: Result<(), EntryError>)
    ensures
        submitted == if stored {
            Ok::<(), EntryError>(())
        } else {
            Err::<(), EntryError>(EntryError::AlreadySubmitted)
        },
{
    if stored {
        Ok(())
    } else {
        Err(EntryError::AlreadySubmitted)
    }
}

/// Two keys that stand for the same point, and two payout hashes for the same bytes, are stored
/// as the same text, however they are written.
pub proof fn aliases_are_stored_alike(
    key: Seq<char>,
    other_key: Seq<char>,
    hash: Seq<char>,
    other_hash: Seq<char>,
)
    requires
        point_of_hex(key) is Some,
        point_of_hex(key) == point_of_hex(other_key),
        hash32(hash) is Some,
        hash32(hash) == hash32(other_hash),
    ensures
        stored_keys(key, hash) is Ok,
        stored_keys(key, hash) == stored_keys(other_key, other_hash),
{
}

/// A stored payout hash stands for the bytes that it was sent as, and is stored as itself again.
pub proof fn stored_hashes_read_back(hash: Seq<char>)
    requires
        hash32(hash) is Some,
    ensures
        hash32(hex_text(hash32(hash)->0)) == hash32(hash),
{
    let bytes = hash32(hash)->0;
    let text = hex_text(bytes);
    hex_round_trips(bytes);
    assert(nibble(text[1]) is Some);
    assert(without_0x(text) == text);
}

/// Where Keymeld holds the players' keys, an entry registers what its ticket was paid with, whatever
/// else it could have registered.
pub proof fn entries_register_what_was_paid_with(
    coordinator: Coordinator,
    entry: AddEntry,
    pubkey: Seq<char>,
    competition: Option<Competition>,
    ticket: Option<Ticket>,
    registered: Option<TicketRegistration>,
    has_session: bool,
)
    requires
        coordinator.keymeld_enabled,
        coordinator.admits(entry, pubkey, competition, ticket, registered, has_session) is Ok,
    ensures
        registers_alike(entry, registered),
        ticket matches Some(ticket) && ticket.paid_at is Some && ticket.reserved_for(pubkey),
{
}

/// No ticket enters twice: a ticket that an entry was made with is refused for every other.
pub proof fn a_used_ticket_enters_no_more(
    coordinator: Coordinator,
    entry: AddEntry,
    pubkey: Seq<char>,
    competition: Option<Competition>,
    ticket: Ticket,
    registered: Option<TicketRegistration>,
    has_session: bool,
)
    requires
        ticket.entry_id is Some,
    ensures
        coordinator.admits(
            entry,
            pubkey,
            competition,
            Some(ticket),
            registered,
            has_session,
        ) is Err,
{
}

} // verus!
