//! What holds of every entry that is taken.

use crate::competition::{Competition, Uuid};
use crate::contract::SigMap;
use crate::encoding::{hash32, hex_text, is_hex, point_of_hex};
use crate::entering::{
    choices_at, entry_check, entry_with_id, first_excess, is_location, nonces_check,
    sig_maps_mirror, signatures_check, signing_info_fault, AddEntry, EntryError,
    StoredKeymeldSession,
};
use crate::entries::{Ticket, UserEntry, WeatherChoices};
use crate::ids::version;
use crate::lifecycle::Coordinator;
use crate::registration::TicketRegistration;
use vstd::prelude::*;

verus! {

/// The values that are chosen at the first `upto` stations: each is the index of its station, and 0
/// for the high temperature, 1 for the low one and 2 for the wind speed there.
pub open spec fn chosen_before(observations: Seq<WeatherChoices>, upto: int) -> Set<(int, int)> {
    Set::new(
        |value: (int, int)|
            {
                &&& 0 <= value.0 < upto
                &&& value.0 < observations.len()
                &&& (value.1 == 0 && observations[value.0].temp_high is Some) || (value.1 == 1
                    && observations[value.0].temp_low is Some) || (value.1 == 2
                    && observations[value.0].wind_speed is Some)
            },
    )
}

/// All values that are chosen.
pub open spec fn chosen_values(observations: Seq<WeatherChoices>) -> Set<(int, int)> {
    chosen_before(observations, observations.len() as int)
}

/// One more station adds as many values as are chosen there.
proof fn one_more_station(observations: Seq<WeatherChoices>, upto: int)
    requires
        0 <= upto < observations.len(),
        chosen_before(observations, upto).finite(),
    ensures
        chosen_before(observations, upto + 1).finite(),
        chosen_before(observations, upto + 1).len() == chosen_before(observations, upto).len()
            + choices_at(observations[upto]),
{
    let before = chosen_before(observations, upto);
    let choices = observations[upto];
    let high = if choices.temp_high is Some {
        before.insert((upto, 0))
    } else {
        before
    };
    let low = if choices.temp_low is Some {
        high.insert((upto, 1))
    } else {
        high
    };
    let wind = if choices.wind_speed is Some {
        low.insert((upto, 2))
    } else {
        low
    };
    assert(chosen_before(observations, upto + 1) =~= wind);
}

/// Only so many values can be chosen.
proof fn chosen_is_finite(observations: Seq<WeatherChoices>, upto: int)
    requires
        0 <= upto <= observations.len(),
    ensures
        chosen_before(observations, upto).finite(),
        upto == 0 ==> chosen_before(observations, upto).len() == 0,
    decreases upto,
{
    if upto > 0 {
        chosen_is_finite(observations, upto - 1);
        one_more_station(observations, upto - 1);
    } else {
        assert(chosen_before(observations, upto) =~= Set::empty());
    }
}

/// More stations never have fewer values.
proof fn chosen_grows(observations: Seq<WeatherChoices>, upto: int, more: int)
    requires
        0 <= upto <= more <= observations.len(),
    ensures
        chosen_before(observations, upto).len() <= chosen_before(observations, more).len(),
    decreases more - upto,
{
    if upto < more {
        chosen_grows(observations, upto, more - 1);
        chosen_is_finite(observations, more - 1);
        one_more_station(observations, more - 1);
    }
}

/// The count that is told is that of the first stations at which too many values are chosen.
proof fn excess_is_first(observations: Seq<WeatherChoices>, allowed: nat, from: int)
    requires
        0 <= from <= observations.len(),
        chosen_before(observations, from).len() <= allowed,
    ensures
        ({
            let counted = chosen_before(observations, from).len();
            match first_excess(observations, allowed, counted, from) {
                None => chosen_values(observations).len() <= allowed,
                Some(got) => exists|at: int|
                    0 <= at < observations.len() && #[trigger] chosen_before(
                        observations,
                        at,
                    ).len() <= allowed < got && got == chosen_before(observations, at + 1).len(),
            }
        }),
    decreases observations.len() - from,
{
    if from < observations.len() {
        chosen_is_finite(observations, from);
        one_more_station(observations, from);
        if chosen_before(observations, from + 1).len() <= allowed {
            excess_is_first(observations, allowed, from + 1);
        } else {
            assert(chosen_before(observations, from).len() <= allowed);
        }
    }
}

/// An entry plays by the rules exactly if its id begins with the time, the values that it chooses,
/// each counted by itself, are no more than are allowed, and all its stations are the
/// competition's. Of one that chooses too many, the number that is told is how many it chooses up to
/// the first station at which they are too many.
pub proof fn entries_choose_no_more_than_is_allowed(
    id: Uuid,
    observations: Seq<WeatherChoices>,
    competition: Competition,
)
    requires
        observations.len() <= usize::MAX,
    ensures
        ({
            let event = competition.event_submission;
            let allowed = event.number_of_values_per_entry;
            let checked = entry_check(id, observations, competition);
            let known = forall|i: int|
                0 <= i < observations.len() ==> exists|j: int|
                    0 <= j < event.locations@.len() && (#[trigger] event.locations@[j])@ == (
                    #[trigger] observations[i]).stations@;
            &&& chosen_values(observations).finite()
            &&& checked is Ok == (version(id) == 7 && chosen_values(observations).len() <= allowed
                && known)
            &&& version(id) != 7 ==> checked == Err::<(), EntryError>(EntryError::InvalidId)
            &&& version(id) == 7 && chosen_values(observations).len() > allowed
                ==> (checked matches Err(EntryError::TooManyChoices { allowed: told, got }) && told
                == allowed && exists|at: int|
                0 <= at < observations.len() && #[trigger] chosen_before(observations, at).len()
                    <= allowed < got && got == chosen_before(observations, at + 1).len())
            &&& version(id) == 7 && chosen_values(observations).len() <= allowed && !known
                ==> checked == Err::<(), EntryError>(EntryError::UnknownLocation)
        }),
{
    let event = competition.event_submission;
    let allowed = event.number_of_values_per_entry as nat;
    chosen_is_finite(observations, observations.len() as int);
    chosen_is_finite(observations, 0);
    excess_is_first(observations, allowed, 0);
    let known = forall|i: int|
        0 <= i < observations.len() ==> exists|j: int|
            0 <= j < event.locations@.len() && (#[trigger] event.locations@[j])@ == (
            #[trigger] observations[i]).stations@;
    assert(known == (forall|i: int|
        0 <= i < observations.len() ==> is_location(
            event.locations@,
            (#[trigger] observations[i]).stations@,
        )));
    match first_excess(observations, allowed, 0, 0) {
        Some(got) => {
            let at = choose|at: int|
                0 <= at < observations.len() && #[trigger] chosen_before(observations, at).len()
                    <= allowed < got && got == chosen_before(observations, at + 1).len();
            chosen_grows(observations, at + 1, observations.len() as int);
            chosen_is_finite(observations, at);
            one_more_station(observations, at);
            assert(got <= allowed + 3);
            assert(entry_check(id, observations, competition) == if version(id) != 7 {
                Err::<(), EntryError>(EntryError::InvalidId)
            } else {
                Err::<(), EntryError>(
                    EntryError::TooManyChoices {
                        allowed: event.number_of_values_per_entry,
                        got: got as u128,
                    },
                )
            });
            assert(chosen_before(observations, at).len() <= allowed < (got as u128));
        },
        None => {},
    }
}

/// Choosing one more value at a station counts as one more there, whatever else is chosen.
pub proof fn each_value_counts(choices: WeatherChoices, more: WeatherChoices)
    requires
        (choices.temp_high is None && more.temp_high is Some && (choices.temp_low is Some
            == more.temp_low is Some) && (choices.wind_speed is Some == more.wind_speed is Some))
            || (choices.temp_low is None && more.temp_low is Some && (choices.temp_high is Some
            == more.temp_high is Some) && (choices.wind_speed is Some == more.wind_speed is Some))
            || (choices.wind_speed is None && more.wind_speed is Some && (choices.temp_high is Some
            == more.temp_high is Some) && (choices.temp_low is Some == more.temp_low is Some)),
    ensures
        choices_at(more) == choices_at(choices) + 1,
{
}

/// An entry is taken exactly if its competition takes entries, its key and payout hash can be read,
/// it plays by the rules, and its ticket is the player's, paid for, unused, for this competition,
/// and not locked with another key; and where Keymeld holds the players' keys, there is a session,
/// and the entry brings all that it registers, the same as its ticket was paid with. It is stored
/// under its key and hash in their one encoding.
pub proof fn entries_are_taken_on_a_paid_ticket(
    coordinator: Coordinator,
    entry: AddEntry,
    pubkey: Seq<char>,
    competition: Competition,
    ticket: Ticket,
    registered: Option<TicketRegistration>,
    has_session: bool,
)
    ensures
        ({
            let admitted = coordinator.admits(
                entry,
                pubkey,
                Some(competition),
                Some(ticket),
                registered,
                has_session,
            );
            let point = point_of_hex(entry.ephemeral_pubkey@);
            let hash = hash32(entry.payout_hash@);
            &&& admitted is Ok == {
                &&& competition.state() is Created
                &&& point is Some
                &&& hash is Some
                &&& entry_check(entry.id, entry.expected_observations@, competition) is Ok
                &&& ticket.reserved_by is Some && (ticket.reserved_by->0)@ == pubkey
                &&& ticket.paid_at is Some
                &&& ticket.entry_id is None
                &&& ticket.competition_id == entry.event_id
                &&& ticket.ephemeral_pubkey is Some ==> (ticket.ephemeral_pubkey->0)@ == hex_text(
                    point->0,
                )
                &&& coordinator.keymeld_enabled ==> {
                    &&& has_session
                    &&& entry.encrypted_keymeld_private_key is Some
                    &&& entry.keymeld_auth_pubkey is Some
                    &&& entry.keymeld_registration_context is Some
                    &&& registered is Some ==> {
                        let kept = registered->0;
                        &&& (entry.encrypted_keymeld_private_key->0)@
                            == kept.encrypted_keymeld_private_key@
                        &&& (entry.keymeld_auth_pubkey->0)@ == kept.keymeld_auth_pubkey@
                        &&& (entry.keymeld_registration_context->0)@
                            == kept.keymeld_registration_context@
                    }
                }
            }
            &&& admitted matches Ok(keys) ==> keys == (hex_text(point->0), hex_text(hash->0))
        }),
{
}

/// A player's nonces are taken exactly if the contract and the coordinator's nonces are there, they
/// are not the coordinator's own, and the entry has sent none before.
pub proof fn nonces_are_taken_once(
    competition: Competition,
    entries: Seq<UserEntry>,
    at: int,
    nonces: SigMap,
)
    requires
        0 <= at < entries.len(),
        forall|i: int| 0 <= i < at ==> (#[trigger] entries[i]).id != entries[at].id,
    ensures
        nonces_check(competition, entries, entries[at].id, nonces) is Ok == (
        competition.contract_parameters is Some && competition.public_nonces is Some
            && sig_maps_mirror(nonces.text(), (competition.public_nonces->0).text()) == Some(false)
            && entries[at].public_nonces is None),
{
    first_is_found(entries, entries[at].id, 0, at);
}

/// A player's partial signatures are taken exactly if the contract and the coordinator's are there,
/// and they are not the coordinator's own.
pub proof fn signatures_are_taken_from_players(
    competition: Competition,
    entries: Seq<UserEntry>,
    at: int,
    signatures: SigMap,
)
    requires
        0 <= at < entries.len(),
        forall|i: int| 0 <= i < at ==> (#[trigger] entries[i]).id != entries[at].id,
    ensures
        signatures_check(competition, entries, entries[at].id, signatures) is Ok == (
        competition.contract_parameters is Some && competition.partial_signatures is Some
            && sig_maps_mirror(
            signatures.text(),
            (competition.partial_signatures->0).text(),
        ) == Some(false)),
{
    first_is_found(entries, entries[at].id, 0, at);
}

/// Nothing is taken for an entry that is not there.
pub proof fn nothing_is_taken_for_others(
    competition: Competition,
    entries: Seq<UserEntry>,
    id: Uuid,
    sent: SigMap,
)
    requires
        forall|i: int| 0 <= i < entries.len() ==> (#[trigger] entries[i]).id != id,
    ensures
        nonces_check(competition, entries, id, sent) is Err,
        signatures_check(competition, entries, id, sent) is Err,
{
    none_is_found(entries, id, 0);
}

/// See `nonces_are_taken_once`.
proof fn first_is_found(entries: Seq<UserEntry>, id: Uuid, from: int, at: int)
    requires
        0 <= from <= at < entries.len(),
        entries[at].id == id,
        forall|i: int| from <= i < at ==> (#[trigger] entries[i]).id != id,
    ensures
        entry_with_id(entries, id, from) == Some(at),
    decreases at - from,
{
    if from < at {
        assert(entries[from].id != id);
        first_is_found(entries, id, from + 1, at);
    }
}

/// See `nothing_is_taken_for_others`.
proof fn none_is_found(entries: Seq<UserEntry>, id: Uuid, from: int)
    requires
        0 <= from <= entries.len(),
        forall|i: int| 0 <= i < entries.len() ==> (#[trigger] entries[i]).id != id,
    ensures
        entry_with_id(entries, id, from) is None,
    decreases entries.len() - from,
{
    if from < entries.len() {
        assert(entries[from].id != id);
        none_is_found(entries, id, from + 1);
    }
}

/// A player is told how Keymeld signs for them exactly once their ticket is paid, there is a session
/// and a gateway, and their key is 32 bytes in hexadecimal.
pub proof fn signing_is_told_to_those_who_paid(
    ticket: Ticket,
    session: Option<StoredKeymeldSession>,
    gateway_url: Option<String>,
    user_pubkey: Seq<char>,
)
    ensures
        signing_info_fault(ticket, session, gateway_url, user_pubkey) is None == (ticket.paid_at
            is Some && session is Some && gateway_url is Some && is_hex(user_pubkey)
            && user_pubkey.len() == 64),
{
}

} // verus!
