//! Building a competition's contract, step by step: its terms, the transaction that funds it, the
//! reservation of that transaction's inputs, and what the coordinator publishes for signing.
//!
//! The wallet and Keymeld are asked between the steps, and what came of that is handed to the next.

use crate::clock::{is_datetime, Timestamp};
use crate::competition::{Competition, Uuid};
use crate::contract::{
    players_view, points_view, ContractParameters, EventAnnouncement, OutcomePayouts, Player, SigMap,
};
use crate::contract_signing::keeps_or_takes;
use crate::contracting::{
    check_escrow_input, contract_need, contract_was_built, escrow_input, generate_players,
    keep_terms, players_from, registration_data, registration_of, release_after_failed_reservation, reservation_deadline,
    ContractError, ContractNeed, EscrowInput, EscrowInputView, ParticipantRegistrationData,
};
use crate::encoding::copy_bytes;
use crate::entries::{
    sort_by_ticket, sorted_entries_stay, sorting_keeps_entries, sorts_by_ticket, Ticket, UserEntry,
};
use crate::funding::{funding_output_in, funding_was_reserved};
use crate::lifecycle::Coordinator;
use crate::payouts::{cannot_be_paid, generate_payouts, is_payouts, places_weigh, PayoutsError};
use crate::psbt::{read_unsigned_transaction, unsigned_transaction};
use crate::rankings::rankings_fit;
use crate::signing::SigningError;
use crate::terms::{build_contract, funding_script, script_of};
use std::collections::HashMap;
use vstd::prelude::*;

verus! {

/// Why building a contract stops.
#[derive(Debug, PartialEq, Eq)]
pub enum BuildError {
    /// The terms or the funding transaction are not in order.
    Contract(ContractError),
    /// The outcomes cannot be paid out.
    Payouts(PayoutsError),
    /// The contract cannot be built on its funding transaction.
    Signing(SigningError),
    /// The wallet could not reserve the inputs.
    NotReserved,
    /// Keymeld did not take the key of the player with this ticket.
    NotRegistered(Uuid),
}

/// What is to be done next for a contract.
#[derive(Debug)]
pub enum BuildStep {
    /// Have the wallet build a transaction that pays the contract, from the escrows where there are
    /// any.
    Fund { script_pubkey: Vec<u8>, value: u64, fee_rate: u64, escrows: Vec<EscrowInput> },
    /// Have the wallet keep the inputs of the transaction until then, in UNIX seconds.
    Reserve { psbt: String, deadline: u64 },
    /// Have the wallet let go of the inputs that it picked: the contract is not built this time.
    Release { psbt: String },
    /// Have Keymeld take the key of the entry with this index.
    Register { index: usize, data: ParticipantRegistrationData },
    /// Nothing: the contract is built.
    Finished,
}

/// The players of the entries, and what each outcome pays them.
pub open spec fn are_agreed(
    players: Seq<Player>,
    payouts: OutcomePayouts,
    entries: Seq<UserEntry>,
    tickets: Map<Uuid, Ticket>,
    places: nat,
) -> bool {
    &&& players_from(entries, tickets) == Ok::<Seq<(Seq<u8>, Seq<u8>, Seq<u8>)>, ContractError>(
        players_view(players),
    )
    &&& is_payouts(payouts, entries, players, places)
}

/// The players of the entries, whose outcomes cannot be paid out for the reason told.
pub open spec fn are_refused(
    players: Seq<Player>,
    error: PayoutsError,
    entries: Seq<UserEntry>,
    tickets: Map<Uuid, Ticket>,
    places: nat,
) -> bool {
    &&& players_from(entries, tickets) == Ok::<Seq<(Seq<u8>, Seq<u8>, Seq<u8>)>, ContractError>(
        players_view(players),
    )
    &&& cannot_be_paid(error, entries, players, places)
}

/// The entry was made with a ticket that is known.
pub open spec fn has_ticket(entry: UserEntry, tickets: Map<Uuid, Ticket>) -> bool {
    tickets.contains_key(entry.id)
}

/// Where one of the entries has its ticket, there is a player.
proof fn someone_plays(entries: Seq<UserEntry>, tickets: Map<Uuid, Ticket>, at: int)
    requires
        0 <= at < entries.len(),
        has_ticket(entries[at], tickets),
        players_from(entries, tickets) is Ok,
    ensures
        (players_from(entries, tickets)->Ok_0).len() > 0,
    decreases entries.len(),
{
    if at < entries.len() - 1 {
        someone_plays(entries.drop_last(), tickets, at);
    }
}

/// The same announcement once more.
fn copy_event(event: &EventAnnouncement) -> (copy: EventAnnouncement)
    ensures
        points_view(copy.locking_points@) == points_view(event.locking_points@),
        copy.expiry == event.expiry,
{
    let mut locking_points: Vec<Vec<u8>> = Vec::new();
    let mut i: usize = 0;
    while i < event.locking_points.len()
        invariant
            i <= event.locking_points@.len(),
            locking_points@.len() == i,
            forall|j: int|
                0 <= j < i ==> (#[trigger] locking_points@[j])@ == event.locking_points@[j]@,
        decreases event.locking_points@.len() - i,
    {
        locking_points.push(copy_bytes(&event.locking_points[i]));
        i = i + 1;
    }
    assert(points_view(locking_points@) =~= points_view(event.locking_points@));
    EventAnnouncement { locking_points, expiry: event.expiry }
}

impl Coordinator {
    /// The terms are those that the competition is played for by the players, and pay the outcomes
    /// as agreed.
    pub open spec fn are_terms(
        self,
        terms: ContractParameters,
        competition: Competition,
        entries: Seq<UserEntry>,
        tickets: Map<Uuid, Ticket>,
        market_maker: Seq<u8>,
        fee_rate: u64,
    ) -> bool {
        let event = competition.event_announcement->0;
        &&& terms.market_maker@ == market_maker
        &&& are_agreed(
            terms.players@,
            terms.outcome_payouts,
            entries,
            tickets,
            competition.event_submission.number_of_places_win as nat,
        )
        &&& points_view(terms.event.locking_points@) == points_view(event.locking_points@)
        &&& terms.event.expiry == event.expiry
        &&& terms.fee_rate == fee_rate
        &&& terms.funding_value == competition.event_submission.total_competition_pool as u64
        &&& terms.relative_locktime_block_delta == match
            competition.event_submission.relative_locktime_block_delta {
            Some(delta) => delta,
            None => #[verifier::truncate] (self.relative_locktime_block_delta as u16),
        }
    }

    /// Fix the terms of a competition's contract, unless they were before. The entries come back in
    /// the order of their tickets, which is that of the players; `tickets` are found by the entry
    /// that was made with them. Whether the contract is still to be built is told.
    pub fn fix_terms(
        &self,
        competition: &mut Competition,
        entries: &mut Vec<UserEntry>,
        tickets: &HashMap<Uuid, Ticket>,
        market_maker: Vec<u8>,
        fee_rate: u64,
    ) -> (fixed: Result<bool, BuildError>)
        requires
            old(competition).event_announcement is Some && old(competition).public_nonces is None
                ==> {
                let places = old(competition).event_submission.number_of_places_win as nat;
                &&& exists|i: int|
                    0 <= i < old(entries)@.len() && has_ticket(
                        #[trigger] old(entries)@[i],
                        tickets@,
                    )
                &&& rankings_fit(old(entries)@.len(), places)
                &&& places_weigh(old(entries)@.len(), places)
            },
        ensures
            old(competition).event_announcement is None ==> {
                &&& fixed matches Err(error) && error == BuildError::Contract(
                    ContractError::NoAnnouncement,
                )
                &&& *final(competition) == *old(competition)
                &&& *final(entries) == *old(entries)
            },
            old(competition).event_announcement is Some && old(competition).public_nonces is Some
                ==> {
                &&& fixed matches Ok(false)
                &&& *final(competition) == *old(competition)
                &&& *final(entries) == *old(entries)
            },
            old(competition).event_announcement is Some && old(competition).public_nonces is None
                ==> {
                let places = old(competition).event_submission.number_of_places_win as nat;
                &&& sorts_by_ticket(old(entries)@, final(entries)@)
                &&& match fixed {
                    Err(error) => {
                        &&& *final(competition) == *old(competition)
                        &&& match players_from(final(entries)@, tickets@) {
                            Err(fault) => error == BuildError::Contract(fault),
                            Ok(_) => error matches BuildError::Payouts(fault) && exists|
                                players: Seq<Player>,
                            | #[trigger]
                                are_refused(players, fault, final(entries)@, tickets@, places),
                        }
                    },
                    Ok(to_build) => {
                        &&& to_build
                        &&& match old(competition).contract_parameters {
                            Some(_) => *final(competition) == *old(competition) && exists|
                                players: Seq<Player>,
                                payouts: OutcomePayouts,
                            | #[trigger]
                                are_agreed(players, payouts, final(entries)@, tickets@, places),
                            None => {
                                &&& final(competition).contract_parameters matches Some(terms)
                                    && self.are_terms(
                                    terms,
                                    *old(competition),
                                    final(entries)@,
                                    tickets@,
                                    market_maker@,
                                    fee_rate,
                                )
                                &&& *final(competition) == (Competition {
                                    contract_parameters: final(competition).contract_parameters,
                                    ..*old(competition)
                                })
                            },
                        }
                    },
                }
            },
    {
        match contract_need(competition) {
            Err(error) => {
                return Err(BuildError::Contract(error));
            },
            Ok(ContractNeed::Nothing) => {
                return Ok(false);
            },
            Ok(ContractNeed::Build) => {},
        }
        let ghost at = choose|i: int|
            0 <= i < old(entries)@.len() && has_ticket(#[trigger] old(entries)@[i], tickets@);
        sort_by_ticket(entries);
        let ghost sorted = entries@;
        let players = match generate_players(entries, tickets) {
            Ok(players) => players,
            Err(error) => {
                return Err(BuildError::Contract(error));
            },
        };
        proof {
            sorting_keeps_entries(old(entries)@, sorted, old(entries)@[at]);
            let moved = choose|i: int|
                0 <= i < sorted.len() && sorted[i] == old(entries)@[at];
            someone_plays(sorted, tickets@, moved);
        }
        let payouts = match generate_payouts(competition, entries, &players) {
            Ok(payouts) => payouts,
            Err(error) => {
                proof {
                    sorted_entries_stay(sorted, entries@);
                    assert(are_refused(
                        players@,
                        error,
                        entries@,
                        tickets@,
                        competition.event_submission.number_of_places_win as nat,
                    ));
                }
                return Err(BuildError::Payouts(error));
            },
        };
        proof {
            sorted_entries_stay(sorted, entries@);
            assert(are_agreed(
                players@,
                payouts,
                entries@,
                tickets@,
                competition.event_submission.number_of_places_win as nat,
            ));
        }
        let event = match &competition.event_announcement {
            Some(event) => copy_event(event),
            None => {
                return Err(BuildError::Contract(ContractError::NoAnnouncement));
            },
        };
        let terms = self.contract_terms(
            competition,
            market_maker,
            players,
            event,
            payouts,
            fee_rate,
        );
        keep_terms(competition, terms);
        Ok(true)
    }
}

/// The escrow outputs of the tickets, at these indices of their escrow transactions; or the first
/// that is not in order.
pub open spec fn escrows_of(tickets: Seq<Ticket>, vouts: Seq<u32>, entries: Seq<UserEntry>) -> Result<
    Seq<EscrowInputView>,
    ContractError,
>
    decreases tickets.len(),
{
    if tickets.len() == 0 {
        Ok(Seq::empty())
    } else {
        match escrows_of(tickets.drop_last(), vouts, entries) {
            Err(error) => Err(error),
            Ok(inputs) => match escrow_input(tickets.last(), vouts[tickets.len() - 1], entries) {
                Err(error) => Err(error),
                Ok(input) => Ok(inputs.push(input)),
            },
        }
    }
}

/// The first error stays the first, whatever tickets follow.
proof fn escrow_fault_is_final(
    tickets: Seq<Ticket>,
    vouts: Seq<u32>,
    entries: Seq<UserEntry>,
    upto: int,
)
    requires
        0 <= upto <= tickets.len(),
        escrows_of(tickets.take(upto), vouts, entries) is Err,
    ensures
        escrows_of(tickets, vouts, entries) == escrows_of(tickets.take(upto), vouts, entries),
    decreases tickets.len() - upto,
{
    if upto < tickets.len() {
        assert(tickets.take(upto + 1).drop_last() =~= tickets.take(upto));
        escrow_fault_is_final(tickets, vouts, entries, upto + 1);
    } else {
        assert(tickets.take(upto) =~= tickets);
    }
}

/// The escrow outputs, with their bytes as sequences.
pub open spec fn escrows_view(escrows: Seq<EscrowInput>) -> Seq<EscrowInputView> {
    escrows.map_values(|escrow: EscrowInput| escrow@)
}

/// The escrow outputs of the tickets, each checked against the entry that was made with its ticket.
pub fn check_escrow_inputs(tickets: &Vec<Ticket>, vouts: &Vec<u32>, entries: &Vec<UserEntry>) -> (
    checked: Result<Vec<EscrowInput>, ContractError>)
    requires
        vouts@.len() == tickets@.len(),
        forall|i: int| 0 <= i < tickets@.len() ==> (#[trigger] tickets@[i]).entry_id is Some,
    ensures
        match escrows_of(tickets@, vouts@, entries@) {
            Ok(expected) => checked matches Ok(escrows) && escrows_view(escrows@) == expected,
            Err(error) => checked matches Err(told) && told == error,
        },
{
    let mut escrows: Vec<EscrowInput> = Vec::new();
    let mut i: usize = 0;
    assert(tickets@.take(0) =~= Seq::empty());
    assert(escrows_view(escrows@) =~= Seq::empty());
    while i < tickets.len()
        invariant
            i <= tickets@.len(),
            vouts@.len() == tickets@.len(),
            forall|j: int| 0 <= j < tickets@.len() ==> (#[trigger] tickets@[j]).entry_id is Some,
            escrows_of(tickets@.take(i as int), vouts@, entries@) == Ok::<
                Seq<EscrowInputView>,
                ContractError,
            >(escrows_view(escrows@)),
        decreases tickets@.len() - i,
    {
        assert(tickets@.take(i + 1).drop_last() =~= tickets@.take(i as int));
        match check_escrow_input(&tickets[i], vouts[i], entries) {
            Ok(escrow) => {
                let ghost before = escrows@;
                escrows.push(escrow);
                assert(escrows_view(escrows@) =~= escrows_view(before).push(escrow@));
            },
            Err(error) => {
                proof {
                    escrow_fault_is_final(tickets@, vouts@, entries@, i + 1);
                }
                return Err(error);
            },
        }
        i = i + 1;
    }
    assert(tickets@.take(i as int) =~= tickets@);
    Ok(escrows)
}

impl Coordinator {
    /// The escrows that the funding transaction spends; none where the coordinator's wallet pays.
    pub open spec fn escrows(
        self,
        tickets: Seq<Ticket>,
        vouts: Seq<u32>,
        entries: Seq<UserEntry>,
    ) -> Result<Seq<EscrowInputView>, ContractError> {
        if self.escrow_enabled {
            escrows_of(tickets, vouts, entries)
        } else {
            Ok(Seq::empty())
        }
    }

    /// What is to be done next for a contract whose terms are fixed: the funding transaction that is
    /// kept stays reserved, and one that pays the competition's pool is built where none is.
    pub open spec fn funds(
        self,
        competition: Competition,
        entries: Seq<UserEntry>,
        tickets: Seq<Ticket>,
        vouts: Seq<u32>,
        now: int,
        step: Result<BuildStep, BuildError>,
    ) -> bool {
        match competition.contract_parameters {
            None => step matches Err(error) && error == BuildError::Contract(
                ContractError::InvalidTerms,
            ),
            Some(params) => match script_of(params) {
                Err(fault) => step matches Err(error) && error == BuildError::Contract(fault),
                Ok(script) => match self.escrows(tickets, vouts, entries) {
                    Err(fault) => step matches Err(error) && error == BuildError::Contract(fault),
                    Ok(inputs) => match competition.funding_psbt_base64 {
                        Some(kept) => if unsigned_transaction(kept@) is None {
                            step matches Err(error) && error == BuildError::Contract(
                                ContractError::InvalidPsbt,
                            )
                        } else {
                            step matches Ok(BuildStep::Reserve { psbt, deadline }) && psbt@ == kept@
                                && deadline == reservation_deadline(competition, now)
                        },
                        None => step matches Ok(
                            BuildStep::Fund { script_pubkey, value, fee_rate, escrows },
                        ) && script_pubkey@ == script && value
                            == competition.event_submission.total_competition_pool && fee_rate
                            == params.fee_rate && escrows_view(escrows@) == inputs,
                    },
                },
            },
        }
    }

    /// Go on with a contract whose terms are fixed. `tickets` are those whose escrows pay for it, and
    /// `vouts` say which output of its escrow transaction is each one's.
    pub fn fund_contract(
        &self,
        competition: &Competition,
        entries: &Vec<UserEntry>,
        tickets: &Vec<Ticket>,
        vouts: &Vec<u32>,
        now: Timestamp,
    ) -> (step: Result<BuildStep, BuildError>)
        requires
            vouts@.len() == tickets@.len(),
            forall|i: int| 0 <= i < tickets@.len() ==> (#[trigger] tickets@[i]).entry_id is Some,
            is_datetime(now as int),
            is_datetime(competition.event_submission.signing_date as int),
            is_datetime(competition.event_submission.end_observation_date as int),
        ensures
            self.funds(*competition, entries@, tickets@, vouts@, now as int, step),
    {
        let params = match &competition.contract_parameters {
            Some(params) => params,
            None => {
                return Err(BuildError::Contract(ContractError::InvalidTerms));
            },
        };
        let script_pubkey = match funding_script(params) {
            Ok(script) => script,
            Err(error) => {
                return Err(BuildError::Contract(error));
            },
        };
        let escrows = if self.escrow_enabled {
            match check_escrow_inputs(tickets, vouts, entries) {
                Ok(escrows) => escrows,
                Err(error) => {
                    return Err(BuildError::Contract(error));
                },
            }
        } else {
            let none: Vec<EscrowInput> = Vec::new();
            assert(escrows_view(none@) =~= Seq::empty());
            none
        };
        match &competition.funding_psbt_base64 {
            Some(kept) => match read_unsigned_transaction(kept.as_str()) {
                Some(_) => reserve(competition, kept.clone(), now),
                None => Err(BuildError::Contract(ContractError::InvalidPsbt)),
            },
            None => Ok(
                BuildStep::Fund {
                    script_pubkey,
                    value: competition.event_submission.total_competition_pool as u64,
                    fee_rate: params.fee_rate,
                    escrows,
                },
            ),
        }
    }
}

/// Have the inputs of a funding transaction reserved.
fn reserve(competition: &Competition, psbt: String, now: Timestamp) -> (step: Result<
    BuildStep,
    BuildError,
>)
    requires
        is_datetime(now as int),
        is_datetime(competition.event_submission.signing_date as int),
        is_datetime(competition.event_submission.end_observation_date as int),
    ensures
        step matches Ok(BuildStep::Reserve { psbt: asked, deadline }) && asked@ == psbt@ && deadline
            == reservation_deadline(*competition, now as int),
{
    match competition.funding_reservation_deadline(now) {
        Ok(deadline) => Ok(BuildStep::Reserve { psbt, deadline }),
        Err(error) => Err(BuildError::Contract(error)),
    }
}

/// The wallet built a funding transaction: its inputs are to be reserved.
pub fn psbt_was_built(competition: &Competition, psbt: String, now: Timestamp) -> (step: Result<
    BuildStep,
    BuildError,
>)
    requires
        is_datetime(now as int),
        is_datetime(competition.event_submission.signing_date as int),
        is_datetime(competition.event_submission.end_observation_date as int),
    ensures
        step matches Ok(BuildStep::Reserve { psbt: asked, deadline }) && asked@ == psbt@ && deadline
            == reservation_deadline(*competition, now as int),
{
    reserve(competition, psbt, now)
}

/// The competition keeps the funding transaction that was reserved, unless it kept one before, and
/// the output in it that funds the contract.
pub open spec fn keeps_funding(
    before: Competition,
    after: Competition,
    psbt: Seq<char>,
    txid: Seq<u8>,
    vout: u32,
) -> bool {
    if before.funding_psbt_base64 is Some {
        after == before
    } else {
        &&& after == (Competition {
            funding_psbt_base64: after.funding_psbt_base64,
            funding_outpoint: after.funding_outpoint,
            ..before
        })
        &&& after.funding_psbt_base64 matches Some(kept) && kept@ == psbt
        &&& after.funding_outpoint matches Some(outpoint) && outpoint.txid@ == txid && outpoint.vout
            == vout
    }
}

impl Coordinator {
    /// Keymeld is given the keys of the entries from the `index`th on; once it has them all the
    /// contract is built, with no nonces of the coordinator's own.
    pub open spec fn registers(
        self,
        before: Competition,
        after: Competition,
        entries: Seq<UserEntry>,
        index: int,
        now: Timestamp,
        step: Result<BuildStep, BuildError>,
    ) -> bool {
        if index < entries.len() {
            &&& after == before
            &&& match registration_of(entries[index]) {
                Ok(expected) => step matches Ok(BuildStep::Register { index: at, data }) && at
                    == index && data == expected,
                Err(fault) => step matches Err(error) && error == BuildError::Contract(fault),
            }
        } else {
            finishes(before, after, SigMap::Empty.text(), now, step)
        }
    }

    /// A contract that can be built on the output that funds it goes on: where Keymeld signs it is
    /// given the players' keys, and otherwise the coordinator's nonces are published.
    pub open spec fn goes_on(
        self,
        before: Competition,
        after: Competition,
        entries: Seq<UserEntry>,
        outpoint: (Seq<u8>, u32),
        key: Seq<u8>,
        now: Timestamp,
        step: Result<BuildStep, BuildError>,
    ) -> bool {
        match self.nonces_to_publish(before, outpoint, key) {
            Err(fault) => {
                &&& after == before
                &&& step matches Err(error) && error == BuildError::Signing(fault)
            },
            Ok(nonces) => if self.keymeld_enabled {
                self.registers(before, after, entries, 0, now, step)
            } else {
                finishes(before, after, nonces, now, step)
            },
        }
    }

    /// Give Keymeld the key of the `index`th entry, or finish the contract once it has them all.
    fn register(
        &self,
        competition: &mut Competition,
        entries: &Vec<UserEntry>,
        index: usize,
        now: Timestamp,
    ) -> (step: Result<BuildStep, BuildError>)
        ensures
            self.registers(
                *old(competition),
                *final(competition),
                entries@,
                index as int,
                now,
                step,
            ),
    {
        if index < entries.len() {
            return match registration_data(&entries[index]) {
                Ok(data) => Ok(BuildStep::Register { index, data }),
                Err(error) => Err(BuildError::Contract(error)),
            };
        }
        contract_was_built(competition, None, now);
        Ok(BuildStep::Finished)
    }

    /// The wallet answered whether it reserved the inputs. Inputs that it could not keep are released
    /// if they were picked for this attempt. Otherwise the transaction is kept, the contract has to
    /// build on the output in it that pays the pool, and Keymeld is given the players' keys where it
    /// signs.
    pub fn psbt_was_reserved(
        &self,
        competition: &mut Competition,
        entries: &Vec<UserEntry>,
        psbt: String,
        reserved: bool,
        key: &Vec<u8>,
        now: Timestamp,
    ) -> (step: Result<BuildStep, BuildError>)
        ensures
            !reserved ==> {
                &&& *final(competition) == *old(competition)
                &&& if old(competition).funding_psbt_base64 is None {
                    step matches Ok(BuildStep::Release { psbt: released }) && released@ == psbt@
                } else {
                    step matches Err(error) && error == BuildError::NotReserved
                }
            },
            reserved ==> match funding_output_in(*old(competition), psbt@) {
                Err(fault) => {
                    &&& *final(competition) == *old(competition)
                    &&& step matches Err(error) && error == BuildError::Contract(fault)
                },
                Ok((txid, vout)) => exists|kept: Competition| #[trigger]
                    keeps_funding(*old(competition), kept, psbt@, txid, vout) && self.goes_on(
                        kept,
                        *final(competition),
                        entries@,
                        (txid, vout),
                        key@,
                        now,
                        step,
                    ),
            },
    {
        if !reserved {
            return if release_after_failed_reservation(competition) {
                Ok(BuildStep::Release { psbt })
            } else {
                Err(BuildError::NotReserved)
            };
        }
        let ghost text = psbt@;
        let outpoint = match funding_was_reserved(competition, psbt) {
            Ok(outpoint) => outpoint,
            Err(error) => {
                return Err(BuildError::Contract(error));
            },
        };
        let ghost kept = *competition;
        proof {
            let (txid, vout) = funding_output_in(*old(competition), text)->Ok_0;
            assert(keeps_funding(*old(competition), kept, text, txid, vout));
        }
        if self.keymeld_enabled {
            match &competition.contract_parameters {
                None => {
                    return Err(BuildError::Signing(SigningError::NoParameters));
                },
                Some(params) => match build_contract(params, &outpoint, key) {
                    Ok(_) => {},
                    Err(error) => {
                        return Err(BuildError::Signing(error));
                    },
                },
            }
            return self.register(competition, entries, 0, now);
        }
        match self.publish_nonces(competition, &outpoint, key, now) {
            Ok(()) => Ok(BuildStep::Finished),
            Err(error) => Err(BuildError::Signing(error)),
        }
    }

    /// Keymeld answered whether it took the key of an entry.
    pub fn participant_was_registered(
        &self,
        competition: &mut Competition,
        entries: &Vec<UserEntry>,
        index: usize,
        registered: bool,
        now: Timestamp,
    ) -> (step: Result<BuildStep, BuildError>)
        requires
            index < entries@.len(),
        ensures
            !registered ==> {
                &&& *final(competition) == *old(competition)
                &&& step matches Err(error) && error == BuildError::NotRegistered(
                    entries@[index as int].ticket_id,
                )
            },
            registered ==> self.registers(
                *old(competition),
                *final(competition),
                entries@,
                index + 1,
                now,
                step,
            ),
    {
        if !registered {
            return Err(BuildError::NotRegistered(entries[index].ticket_id));
        }
        assert(index < entries.len());
        self.register(competition, entries, index + 1, now)
    }
}

/// The contract is built: the nonces are published, unless some were before.
pub open spec fn finishes(
    before: Competition,
    after: Competition,
    nonces: Seq<char>,
    now: Timestamp,
    step: Result<BuildStep, BuildError>,
) -> bool {
    &&& step matches Ok(BuildStep::Finished)
    &&& after.errors@.len() == 0
    &&& after == (Competition {
        public_nonces: after.public_nonces,
        contracted_at: Some(now),
        errors: after.errors,
        ..before
    })
    &&& keeps_or_takes(before.public_nonces, after.public_nonces, nonces)
}

/// A contract is funded by one transaction: once a competition keeps one, no other is built, and it
/// is the inputs of that one that are reserved.
pub proof fn one_transaction_funds_a_contract(
    coordinator: Coordinator,
    competition: Competition,
    entries: Seq<UserEntry>,
    tickets: Seq<Ticket>,
    vouts: Seq<u32>,
    now: int,
    step: Result<BuildStep, BuildError>,
)
    requires
        competition.funding_psbt_base64 is Some,
        coordinator.funds(competition, entries, tickets, vouts, now, step),
    ensures
        step matches Ok(step) ==> (step matches BuildStep::Reserve { psbt, deadline } && psbt@ == (
        competition.funding_psbt_base64->0)@),
{
}

} // verus!
