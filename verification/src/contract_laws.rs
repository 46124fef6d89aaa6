//! What holds of every contract: whom it is made with, what funds it, who signs it, and what is swept
//! from it.

use crate::building::{self, keeps_funding, BuildError, BuildStep};
use crate::chain::public_key_bytes;
use crate::clock::Timestamp;
use crate::competition::{Competition, Uuid};
use crate::contract::{ContractParameters, Outcome, SignedContract};
use crate::contract_signing::{
    combined_of, first_unverified, nonces_sent, round_of, signatures_sent,
};
use crate::contracting::{
    escrow_input, escrow_lock, escrow_parts, paying_output, player_from, players_from,
    registration_of, reservation_deadline, ContractError, EscrowInputView,
    ParticipantRegistrationData,
};
use crate::dlc::{nonces_match, partial_signatures_match, signatures_verify};
use crate::dlc_spends::{
    closed_outcome, closed_share, closed_split, closing_weight, outcome_output, reclaimed_share,
    reclaimed_split, reclaiming_weight, split_transaction, SpentOutputView,
};
use crate::encoding::{hash32, hex_bytes, is_hex, point_of_hex, scalar_of_hex, sha256_digest};
use crate::enforcement::{
    close_of, fee_is_covered, key_pair, le_bytes8, p2tr_script, share_close_of, share_reclaim_of,
    split_of, sweep_encoding, sweep_fee, swept, winner_keys, winner_keys_text,
};
use crate::entering::entry_with_id;
use crate::entries::{Ticket, UserEntry};
use crate::funding::{
    funding_output_in, funding_parts, in_key_order, input_issue, input_issues, merged, merged_one,
    put_by_key, sent_psbts, signed_funding, InputIssue,
};
use crate::kickoff_signing::{bytes_are_ordered, bytes_before};
use crate::lifecycle::Coordinator;
use crate::outcome::{outcome_plan, OutcomePlan};
use crate::progress::{self, confirmed, held_tickets};
use crate::psbt::{
    combined, extracted, key_sources, paths_agree, signed_inputs, sources_agree, spends_nothing,
    spends_outputs, FundingInput,
};
use crate::settlement::{current_outcome, SettlementError, Winner};
use crate::signing::{
    all_sent, le_bytes, replace_sender, senders, sent_nonces, sent_signatures, SigningError,
    SigningPath,
};
use crate::terms::{funded_at, script_of};
use vstd::prelude::*;

verus! {

/// The player of an entry has the entry's own key and payout hash, and its ticket's hash; an entry of
/// which one of the three cannot be read has none.
pub proof fn players_have_their_entries_keys(entry: UserEntry, ticket: Ticket)
    ensures
        player_from(entry, ticket) is Ok == (point_of_hex(entry.ephemeral_pubkey@) is Some && hash32(
            ticket.hash@,
        ) is Some && hash32(entry.payout_hash@) is Some),
        player_from(entry, ticket) matches Ok(player) ==> Some(player.0) == point_of_hex(
            entry.ephemeral_pubkey@,
        ) && Some(player.1) == hash32(ticket.hash@) && Some(player.2) == hash32(entry.payout_hash@),
{
}

/// Where every entry has its ticket, the players of a contract are those of the entries, one each and
/// in their order, each with the ticket of their own entry.
pub proof fn players_follow_the_entries(entries: Seq<UserEntry>, tickets: Map<Uuid, Ticket>)
    requires
        forall|i: int| 0 <= i < entries.len() ==> tickets.contains_key((#[trigger] entries[i]).id),
    ensures
        players_from(entries, tickets) is Ok == (forall|i: int|
            0 <= i < entries.len() ==> player_from(
                #[trigger] entries[i],
                tickets[entries[i].id],
            ) is Ok),
        players_from(entries, tickets) matches Ok(players) ==> players.len() == entries.len()
            && forall|i: int|
            0 <= i < entries.len() ==> Ok::<(Seq<u8>, Seq<u8>, Seq<u8>), ContractError>(
                #[trigger] players[i],
            ) == player_from(entries[i], tickets[entries[i].id]),
    decreases entries.len(),
{
    if entries.len() > 0 {
        let fewer = entries.drop_last();
        let last = entries.len() - 1;
        assert forall|i: int| 0 <= i < last implies #[trigger] fewer[i] == entries[i] by {}
        assert forall|i: int| 0 <= i < fewer.len() implies tickets.contains_key(
            (#[trigger] fewer[i]).id,
        ) by {
            assert(tickets.contains_key(entries[i].id));
        }
        players_follow_the_entries(fewer, tickets);
        assert(entries[last] == entries.last());
        assert(tickets.contains_key(entries[last].id));
        if players_from(fewer, tickets) is Ok {
            assert forall|i: int| 0 <= i < last implies player_from(
                #[trigger] entries[i],
                tickets[entries[i].id],
            ) is Ok by {
                assert(player_from(fewer[i], tickets[fewer[i].id]) is Ok);
            }
            if let Ok(players) = players_from(entries, tickets) {
                let earlier = players_from(fewer, tickets)->Ok_0;
                assert forall|i: int| 0 <= i < last implies #[trigger] players[i] == earlier[i]
                    && fewer[i] == entries[i] by {}
            }
        } else {
            let i = choose|i: int|
                0 <= i < fewer.len() && player_from(
                    #[trigger] fewer[i],
                    tickets[fewer[i].id],
                ) is Err;
            assert(fewer[i] == entries[i]);
        }
    }
}

/// An escrow may be spent for an entry exactly if it is locked with the entry's own key, which is a
/// public key, and with the hash of the ticket's own preimage.
pub proof fn escrows_are_locked_for_their_entries(ticket: Ticket, entry: UserEntry)
    ensures
        escrow_lock(ticket, entry) is Ok == (ticket.ephemeral_pubkey is Some && (
        ticket.ephemeral_pubkey->0)@ == entry.ephemeral_pubkey@ && public_key_bytes(
            entry.ephemeral_pubkey@,
        ) is Some && hash32(ticket.hash@) is Some && is_hex(ticket.encrypted_preimage@)
            && sha256_digest(hex_bytes(ticket.encrypted_preimage@)) == hash32(ticket.hash@)->0),
        escrow_lock(ticket, entry) matches Ok(lock) ==> Some(lock.0) == public_key_bytes(
            entry.ephemeral_pubkey@,
        ) && lock.1 == sha256_digest(hex_bytes(ticket.encrypted_preimage@)),
{
}

/// The escrow that is spent for a ticket is the named output of the ticket's own escrow transaction,
/// with its value and script, locked for the entry that was made with the ticket.
pub proof fn escrow_inputs_are_the_tickets(ticket: Ticket, vout: u32, entries: Seq<UserEntry>, at: int)
    requires
        ticket.entry_id is Some,
        0 <= at < entries.len(),
        entries[at].id == ticket.entry_id->0,
        forall|i: int| 0 <= i < at ==> (#[trigger] entries[i]).id != ticket.entry_id->0,
    ensures
        ({
            let found = escrow_input(ticket, vout, entries);
            let parts = escrow_parts((ticket.escrow_transaction->0)@);
            &&& found is Ok == (ticket.escrow_transaction is Some && parts is Some && vout < (
            parts->0).1.len() && escrow_lock(ticket, entries[at]) is Ok)
            &&& found matches Ok(input) ==> {
                &&& input.txid == (parts->0).0
                &&& input.vout == vout
                &&& (input.value, input.script_pubkey) == (parts->0).1[vout as int]
                &&& Ok::<(Seq<u8>, Seq<u8>), ContractError>((input.user_pubkey, input.payment_hash))
                    == escrow_lock(ticket, entries[at])
            }
        }),
{
    found_by_id(entries, ticket.entry_id->0, 0, at);
}

/// An entry is found under its id where it is the first with it.
proof fn found_by_id(entries: Seq<UserEntry>, id: Uuid, from: int, at: int)
    requires
        0 <= from <= at < entries.len(),
        entries[at].id == id,
        forall|i: int| from <= i < at ==> (#[trigger] entries[i]).id != id,
    ensures
        entry_with_id(entries, id, from) == Some(at),
    decreases at - from,
{
    if from < at {
        assert(entries[from].id != id);
        found_by_id(entries, id, from + 1, at);
    }
}

/// The escrows that are spent are those of the tickets, one each and in their order; one that is not
/// in order makes it fail.
pub proof fn every_escrow_is_spent(tickets: Seq<Ticket>, vouts: Seq<u32>, entries: Seq<UserEntry>)
    ensures
        building::escrows_of(tickets, vouts, entries) is Ok == (forall|i: int|
            0 <= i < tickets.len() ==> escrow_input(#[trigger] tickets[i], vouts[i], entries) is Ok),
        building::escrows_of(tickets, vouts, entries) matches Ok(inputs) ==> inputs.len()
            == tickets.len() && forall|i: int|
            0 <= i < tickets.len() ==> Ok::<EscrowInputView, ContractError>(#[trigger] inputs[i])
                == escrow_input(tickets[i], vouts[i], entries),
    decreases tickets.len(),
{
    if tickets.len() > 0 {
        let fewer = tickets.drop_last();
        let last = tickets.len() - 1;
        every_escrow_is_spent(fewer, vouts, entries);
        assert forall|i: int| 0 <= i < last implies #[trigger] fewer[i] == tickets[i] by {}
        assert(tickets[last] == tickets.last());
        if building::escrows_of(fewer, vouts, entries) is Ok {
            assert forall|i: int| 0 <= i < last implies escrow_input(
                #[trigger] tickets[i],
                vouts[i],
                entries,
            ) is Ok by {
                assert(escrow_input(fewer[i], vouts[i], entries) is Ok);
            }
            if let Ok(inputs) = building::escrows_of(tickets, vouts, entries) {
                let earlier = building::escrows_of(fewer, vouts, entries)->Ok_0;
                assert forall|i: int| 0 <= i < last implies #[trigger] inputs[i] == earlier[i]
                    && fewer[i] == tickets[i] by {}
            }
        } else {
            let i = choose|i: int|
                0 <= i < fewer.len() && escrow_input(#[trigger] fewer[i], vouts[i], entries) is Err;
            assert(fewer[i] == tickets[i]);
        }
    }
}

/// The output that funds a contract pays exactly the value to exactly the script, and is the first
/// that does.
proof fn paying_is_first(
    outputs: Seq<(u64, Seq<u8>)>,
    script: Seq<u8>,
    value: u64,
    from: int,
)
    requires
        0 <= from,
    ensures
        match paying_output(outputs, script, value, from) {
            Some(at) => from <= at < outputs.len() && outputs[at].0 == value && outputs[at].1
                == script && forall|i: int|
                from <= i < at ==> !((#[trigger] outputs[i]).0 == value && outputs[i].1 == script),
            None => forall|i: int|
                from <= i < outputs.len() ==> !((#[trigger] outputs[i]).0 == value && outputs[i].1
                    == script),
        },
    decreases outputs.len() - from,
{
    if from < outputs.len() {
        paying_is_first(outputs, script, value, from + 1);
    }
}

/// A contract is funded by the first output of the funding transaction that pays exactly the
/// competition's pool to the contract's own script; a transaction without such an output funds
/// nothing.
pub proof fn contracts_are_funded_with_the_pool(competition: Competition, psbt: Seq<char>)
    requires
        competition.contract_parameters is Some,
        script_of(competition.contract_parameters->0) is Ok,
        funding_parts(psbt) is Some,
        (funding_parts(psbt)->0).1.len() <= u32::MAX,
    ensures
        ({
            let pool = competition.event_submission.total_competition_pool as u64;
            let script = script_of(competition.contract_parameters->0)->Ok_0;
            let (txid, outputs) = funding_parts(psbt)->0;
            match funding_output_in(competition, psbt) {
                Ok((found, vout)) => {
                    &&& found == txid
                    &&& vout < outputs.len()
                    &&& outputs[vout as int].0 == pool
                    &&& outputs[vout as int].1 == script
                    &&& forall|i: int|
                        0 <= i < vout ==> !((#[trigger] outputs[i]).0 == pool && outputs[i].1
                            == script)
                },
                Err(error) => {
                    &&& error == ContractError::NoFundingOutput
                    &&& forall|i: int|
                        0 <= i < outputs.len() ==> !((#[trigger] outputs[i]).0 == pool
                            && outputs[i].1 == script)
                },
            }
        }),
{
    let params = competition.contract_parameters->0;
    let pool = competition.event_submission.total_competition_pool as u64;
    let script = script_of(params)->Ok_0;
    let (txid, outputs) = funding_parts(psbt)->0;
    paying_is_first(outputs, script, pool, 0);
    assert(funded_at(params, pool, outputs) == match paying_output(outputs, script, pool, 0) {
        Some(at) => Ok::<int, ContractError>(at),
        None => Err::<int, ContractError>(ContractError::NoFundingOutput),
    });
}

/// The inputs of a competition stay reserved for a day past the last of its dates and the present.
pub proof fn inputs_stay_reserved_past_every_date(competition: Competition, now: int)
    ensures
        ({
            let deadline = reservation_deadline(competition, now) - 86_400;
            let signing = competition.event_submission.signing_date as int / 1_000_000_000;
            let end = competition.event_submission.end_observation_date as int / 1_000_000_000;
            let expiry = match competition.event_announcement {
                Some(event) => match event.expiry {
                    Some(expiry) => expiry as int,
                    None => 0int,
                },
                None => 0int,
            };
            let present = now / 1_000_000_000;
            &&& deadline >= signing
            &&& deadline >= end
            &&& deadline >= expiry
            &&& deadline >= present
            &&& deadline == signing || deadline == end || deadline == expiry || deadline == present
        }),
{
}

/// An entry is registered with Keymeld under its ticket, with its own keys and context, and only if it
/// has all of them.
pub proof fn entries_are_registered_with_their_own_keys(entry: UserEntry)
    ensures
        registration_of(entry) is Ok == (entry.encrypted_keymeld_private_key is Some
            && entry.keymeld_auth_pubkey is Some && entry.keymeld_registration_context is Some),
        registration_of(entry) matches Ok(data) ==> {
            &&& data.user_id == entry.ticket_id
            &&& data.public_key == entry.ephemeral_pubkey
            &&& Some(data.encrypted_private_key) == entry.encrypted_keymeld_private_key
            &&& Some(data.auth_pubkey) == entry.keymeld_auth_pubkey
            &&& Some(data.context) == entry.keymeld_registration_context
        },
{
}

/// The terms of a contract are the competition's own: its pool, its timelock where it has one, what
/// the oracle announced, and the given market maker and rate.
pub proof fn terms_are_the_competitions(
    coordinator: Coordinator,
    terms: ContractParameters,
    competition: Competition,
    entries: Seq<UserEntry>,
    tickets: Map<Uuid, Ticket>,
    market_maker: Seq<u8>,
    fee_rate: u64,
)
    requires
        coordinator.are_terms(terms, competition, entries, tickets, market_maker, fee_rate),
    ensures
        terms.market_maker@ == market_maker,
        terms.fee_rate == fee_rate,
        terms.funding_value == competition.event_submission.total_competition_pool as u64,
        competition.event_submission.relative_locktime_block_delta matches Some(delta)
            ==> terms.relative_locktime_block_delta == delta,
        terms.event.expiry == (competition.event_announcement->0).expiry,
        terms.event.locking_points@.len() == (
        competition.event_announcement->0).locking_points@.len(),
        forall|i: int|
            0 <= i < terms.event.locking_points@.len() ==> (
            #[trigger] terms.event.locking_points@[i])@ == (
            competition.event_announcement->0).locking_points@[i]@,
        players_from(entries, tickets) is Ok,
        terms.players@.len() == (players_from(entries, tickets)->Ok_0).len(),
        forall|i: int|
            0 <= i < terms.players@.len() ==> ((#[trigger] terms.players@[i]).pubkey@,
                terms.players@[i].ticket_hash@, terms.players@[i].payout_hash@) == (players_from(
                entries,
                tickets,
            )->Ok_0)[i],
{
    let event = competition.event_announcement->0;
    let ours = crate::contract::points_view(terms.event.locking_points@);
    let theirs = crate::contract::points_view(event.locking_points@);
    assert(ours.len() == theirs.len());
    assert forall|i: int| 0 <= i < terms.event.locking_points@.len() implies (
    #[trigger] terms.event.locking_points@[i])@ == event.locking_points@[i]@ by {
        assert(ours[i] == theirs[i]);
    }
    let players = crate::contract::players_view(terms.players@);
    assert forall|i: int| 0 <= i < terms.players@.len() implies ((
    #[trigger] terms.players@[i]).pubkey@, terms.players@[i].ticket_hash@,
        terms.players@[i].payout_hash@) == (players_from(entries, tickets)->Ok_0)[i] by {
        assert(players[i] == (players_from(entries, tickets)->Ok_0)[i]);
    }
}

/// While no funding transaction is kept, one is asked for that pays exactly the pool to the contract's
/// script at the agreed rate; and one that is kept is reserved as it is.
pub proof fn funding_pays_the_pool(
    coordinator: Coordinator,
    competition: Competition,
    entries: Seq<UserEntry>,
    tickets: Seq<Ticket>,
    vouts: Seq<u32>,
    now: int,
    step: BuildStep,
)
    requires
        coordinator.funds(
            competition,
            entries,
            tickets,
            vouts,
            now,
            Ok::<BuildStep, BuildError>(step),
        ),
    ensures
        competition.contract_parameters is Some,
        competition.funding_psbt_base64 is None ==> (step matches BuildStep::Fund {
            script_pubkey,
            value,
            fee_rate,
            escrows,
        } && value == competition.event_submission.total_competition_pool && fee_rate == (
        competition.contract_parameters->0).fee_rate && Ok::<Seq<u8>, ContractError>(script_pubkey@)
            == script_of(competition.contract_parameters->0) && (!coordinator.escrow_enabled
            ==> escrows@.len() == 0)),
        competition.funding_psbt_base64 is Some ==> (step matches BuildStep::Reserve {
            psbt,
            deadline,
        } && psbt@ == (competition.funding_psbt_base64->0)@ && deadline == reservation_deadline(
            competition,
            now,
        )),
{
    if let BuildStep::Fund { script_pubkey, value, fee_rate, escrows } = step {
        assert(building::escrows_view(escrows@).len() == escrows@.len());
    }
}

/// Entering a sender never loses one.
proof fn entering_senders(earlier: Seq<(Seq<u8>, int)>, point: Seq<u8>, at: int, from: int)
    requires
        0 <= from <= earlier.len(),
    ensures
        replace_sender(earlier, point, at, from).len() <= earlier.len() + 1,
        replace_sender(earlier, point, at, from).len() >= earlier.len(),
        (forall|i: int| from <= i < earlier.len() ==> (#[trigger] earlier[i]).0 != point)
            ==> replace_sender(earlier, point, at, from) == earlier.push((point, at)),
        replace_sender(earlier, point, at, from).len() == earlier.len() + 1 ==> forall|i: int|
            from <= i < earlier.len() ==> (#[trigger] earlier[i]).0 != point,
    decreases earlier.len() - from,
{
    if from < earlier.len() && earlier[from].0 != point {
        entering_senders(earlier, point, at, from + 1);
    }
}

/// The senders are never more than the entries, and as many only if all sent under keys of their own.
proof fn senders_are_counted(entries: Seq<UserEntry>, sent: spec_fn(UserEntry) -> bool)
    ensures
        senders(entries, sent) matches Ok(found) ==> found.len() <= entries.len(),
        (senders(entries, sent) is Ok && (senders(entries, sent)->Ok_0).len() == entries.len())
            == all_sent_apart(entries, sent),
        all_sent_apart(entries, sent) ==> forall|i: int|
            0 <= i < entries.len() ==> #[trigger] (senders(entries, sent)->Ok_0)[i] == (
                point_of_hex(entries[i].ephemeral_pubkey@)->0,
                i,
            ),
    decreases entries.len(),
{
    if entries.len() > 0 {
        let fewer = entries.drop_last();
        let last = entries.len() - 1;
        senders_are_counted(fewer, sent);
        assert forall|i: int| 0 <= i < last implies #[trigger] fewer[i] == entries[i] by {}
        assert(entries[last] == entries.last());
        if all_sent_apart(entries, sent) {
            assert(all_sent_apart(fewer, sent)) by {
                assert forall|i: int| 0 <= i < fewer.len() implies sent(#[trigger] fewer[i])
                    && point_of_hex(fewer[i].ephemeral_pubkey@) is Some by {
                    assert(sent(entries[i]));
                }
                assert forall|i: int, j: int| 0 <= i < j < fewer.len() implies point_of_hex(
                    (#[trigger] fewer[i]).ephemeral_pubkey@,
                ) != point_of_hex((#[trigger] fewer[j]).ephemeral_pubkey@) by {
                    assert(point_of_hex(entries[i].ephemeral_pubkey@) != point_of_hex(
                        entries[j].ephemeral_pubkey@,
                    ));
                }
            }
            assert(sent(entries[last]));
        }
        if senders(fewer, sent) is Ok && sent(entries[last]) && point_of_hex(
            entries[last].ephemeral_pubkey@,
        ) is Some {
            let earlier = senders(fewer, sent)->Ok_0;
            let point = point_of_hex(entries[last].ephemeral_pubkey@)->0;
            entering_senders(earlier, point, last, 0);
            if all_sent_apart(entries, sent) {
                assert forall|i: int| 0 <= i < earlier.len() implies (#[trigger] earlier[i]).0
                    != point by {
                    assert(fewer[i] == entries[i]);
                    assert(point_of_hex(entries[i].ephemeral_pubkey@) != point_of_hex(
                        entries[last].ephemeral_pubkey@,
                    ));
                }
            }
            if (senders(entries, sent)->Ok_0).len() == entries.len() {
                assert(earlier.len() == fewer.len());
                assert forall|i: int| 0 <= i < entries.len() implies sent(#[trigger] entries[i])
                    && point_of_hex(entries[i].ephemeral_pubkey@) is Some by {
                    if i < last {
                        assert(sent(fewer[i]));
                    }
                }
                assert forall|i: int, j: int| 0 <= i < j < entries.len() implies point_of_hex(
                    (#[trigger] entries[i]).ephemeral_pubkey@,
                ) != point_of_hex((#[trigger] entries[j]).ephemeral_pubkey@) by {
                    if j < last {
                        assert(point_of_hex(fewer[i].ephemeral_pubkey@) != point_of_hex(
                            fewer[j].ephemeral_pubkey@,
                        ));
                    } else {
                        assert(fewer[i] == entries[i]);
                        assert(earlier[i].0 != point);
                    }
                }
            }
        }
    }
}

/// Every entry sent something, and every one of them under a key of its own.
pub open spec fn all_sent_apart(entries: Seq<UserEntry>, sent: spec_fn(UserEntry) -> bool) -> bool {
    &&& forall|i: int|
        0 <= i < entries.len() ==> sent(#[trigger] entries[i]) && point_of_hex(
            entries[i].ephemeral_pubkey@,
        ) is Some
    &&& forall|i: int, j: int|
        0 <= i < j < entries.len() ==> point_of_hex((#[trigger] entries[i]).ephemeral_pubkey@)
            != point_of_hex((#[trigger] entries[j]).ephemeral_pubkey@)
}

/// A round of signing goes on exactly if every entry sent something, under a key of its own; and then
/// each counts under its own key, in the order of the entries.
pub proof fn everyone_signs_under_their_own_key(
    entries: Seq<UserEntry>,
    sent: spec_fn(UserEntry) -> bool,
)
    ensures
        all_sent(entries, sent) is Ok == all_sent_apart(entries, sent),
        all_sent(entries, sent) matches Ok(found) ==> found.len() == entries.len() && forall|i: int|
            0 <= i < entries.len() ==> #[trigger] found[i] == (
                point_of_hex(entries[i].ephemeral_pubkey@)->0,
                i,
            ),
{
    senders_are_counted(entries, sent);
}

/// What is aggregated of an entry is what the entry sent, under its own key.
pub proof fn what_is_signed_is_what_was_sent(entries: Seq<UserEntry>, i: int)
    requires
        0 <= i < entries.len(),
    ensures
        all_sent(entries, |entry: UserEntry| sent_nonces(entry)) matches Ok(found) ==> entries[i].public_nonces
            is Some && nonces_sent(entries, found)[i] == (
            point_of_hex(entries[i].ephemeral_pubkey@)->0,
            (entries[i].public_nonces->0).text(),
        ),
        all_sent(entries, |entry: UserEntry| sent_signatures(entry)) matches Ok(found)
            ==> entries[i].partial_signatures is Some && entries[i].funding_psbt_base64 is Some
            && entries[i].signed_at is Some && signatures_sent(entries, found)[i] == (
            point_of_hex(entries[i].ephemeral_pubkey@)->0,
            (entries[i].partial_signatures->0).text(),
        ),
{
    let nonces = |entry: UserEntry| sent_nonces(entry);
    let signatures = |entry: UserEntry| sent_signatures(entry);
    everyone_signs_under_their_own_key(entries, nonces);
    everyone_signs_under_their_own_key(entries, signatures);
    if all_sent(entries, nonces) is Ok {
        assert(nonces(entries[i]));
        assert((all_sent(entries, nonces)->Ok_0)[i] == (
            point_of_hex(entries[i].ephemeral_pubkey@)->0,
            i,
        ));
    }
    if all_sent(entries, signatures) is Ok {
        assert(signatures(entries[i]));
        assert((all_sent(entries, signatures)->Ok_0)[i] == (
            point_of_hex(entries[i].ephemeral_pubkey@)->0,
            i,
        ));
    }
}

/// The first whose signatures do not verify is the first.
proof fn unverified_is_first(
    contract: Seq<char>,
    seed: Seq<u8>,
    key: Seq<u8>,
    nonces: Seq<char>,
    sent: Seq<(Seq<u8>, Seq<char>)>,
    from: int,
)
    requires
        0 <= from,
    ensures
        first_unverified(contract, seed, key, nonces, sent, from) is None == (forall|i: int|
            from <= i < sent.len() ==> signatures_verify(
                contract,
                seed,
                key,
                nonces,
                (#[trigger] sent[i]).0,
                sent[i].1,
            )),
    decreases sent.len() - from,
{
    if from < sent.len() {
        unverified_is_first(contract, seed, key, nonces, sent, from + 1);
    }
}

/// A contract is combined only if the nonces that are drawn again are the published ones, the
/// coordinator's signatures are those that it made before, every player sent theirs under a key of
/// their own, and every one of them verifies.
pub proof fn contracts_are_signed_by_everyone(
    params: ContractParameters,
    outpoint: crate::contract::OutPoint,
    published: crate::contract::SigMap,
    ours: crate::contract::SigMap,
    entries: Seq<UserEntry>,
    key: Seq<u8>,
)
    requires
        combined_of(params, outpoint, published, ours, entries, key) is Ok,
    ensures
        all_sent_apart(entries, |entry: UserEntry| sent_nonces(entry)),
        all_sent_apart(entries, |entry: UserEntry| sent_signatures(entry)),
        crate::terms::nonces_of(params, outpoint.txid@, outpoint.vout, key) matches Ok(drawn)
            && nonces_match(drawn, published.text()),
        crate::contract_signing::aggregate_of(
            params,
            outpoint,
            published,
            entries,
            key,
        ) matches Ok(made) && partial_signatures_match(made.1, ours.text()),
        ({
            let round = round_of(params, outpoint, published, entries, key)->Ok_0;
            let seed = crate::terms::seed_of(params, outpoint.txid@, outpoint.vout, key);
            forall|i: int|
                0 <= i < entries.len() ==> signatures_verify(
                    round.0,
                    seed,
                    key,
                    round.1,
                    point_of_hex((#[trigger] entries[i]).ephemeral_pubkey@)->0,
                    (entries[i].partial_signatures->0).text(),
                )
        }),
{
    let nonces = |entry: UserEntry| sent_nonces(entry);
    let signatures = |entry: UserEntry| sent_signatures(entry);
    everyone_signs_under_their_own_key(entries, nonces);
    everyone_signs_under_their_own_key(entries, signatures);
    let round = round_of(params, outpoint, published, entries, key)->Ok_0;
    let seed = crate::terms::seed_of(params, outpoint.txid@, outpoint.vout, key);
    let found = all_sent(entries, signatures)->Ok_0;
    let sent = signatures_sent(entries, found);
    unverified_is_first(round.0, seed, key, round.1, sent, 0);
    assert forall|i: int| 0 <= i < entries.len() implies signatures_verify(
        round.0,
        seed,
        key,
        round.1,
        point_of_hex((#[trigger] entries[i]).ephemeral_pubkey@)->0,
        (entries[i].partial_signatures->0).text(),
    ) by {
        assert(found[i] == (point_of_hex(entries[i].ephemeral_pubkey@)->0, i));
        assert(sent[i] == (found[i].0, (entries[i].partial_signatures->0).text()));
    }
}

/// A contract is signed by Keymeld exactly where Keymeld is used, and otherwise only once the
/// coordinator's nonces and partial signatures are there; both ways it needs its terms and funding.
pub proof fn signing_needs_terms_and_funding(coordinator: Coordinator, competition: Competition)
    ensures
        ({
            let ready = competition.contract_parameters is Some && competition.funding_outpoint
                is Some;
            let path = coordinator.signing_path_of(competition);
            &&& (path == Ok::<SigningPath, SigningError>(SigningPath::Keymeld)) == (ready
                && coordinator.keymeld_enabled)
            &&& (path == Ok::<SigningPath, SigningError>(SigningPath::Aggregate)) == (ready
                && !coordinator.keymeld_enabled && competition.partial_signatures is Some
                && competition.public_nonces is Some)
        }),
        ({
            let path = coordinator.aggregation_path_of(competition);
            &&& (path == Ok::<SigningPath, SigningError>(SigningPath::Keymeld))
                == coordinator.keymeld_enabled
            &&& (path == Ok::<SigningPath, SigningError>(SigningPath::Aggregate)) == (
            !coordinator.keymeld_enabled && competition.contract_parameters is Some
                && competition.funding_outpoint is Some && competition.public_nonces is Some)
        }),
{
}

/// Putting a sender in keeps the others, and the order of the keys.
proof fn put_keeps_order(ordered: Seq<(Seq<u8>, int)>, sender: (Seq<u8>, int))
    requires
        forall|i: int, j: int|
            0 <= i < j < ordered.len() ==> !bytes_before(
                (#[trigger] ordered[j]).0,
                (#[trigger] ordered[i]).0,
            ),
    ensures
        ({
            let put = put_by_key(ordered, sender);
            &&& put.to_multiset() == ordered.to_multiset().insert(sender)
            &&& forall|i: int, j: int|
                0 <= i < j < put.len() ==> !bytes_before(
                    (#[trigger] put[j]).0,
                    (#[trigger] put[i]).0,
                )
            &&& forall|i: int|
                0 <= i < put.len() ==> (#[trigger] put[i]) == sender || ordered.contains(put[i])
        }),
    decreases ordered.len(),
{
    broadcast use vstd::seq_lib::group_to_multiset_ensures;

    let put = put_by_key(ordered, sender);
    if ordered.len() > 0 && bytes_before(sender.0, ordered.last().0) {
        let rest = ordered.drop_last();
        let last = ordered.last();
        put_keeps_order(rest, sender);
        let earlier = put_by_key(rest, sender);
        assert(ordered =~= rest.push(last));
        assert(put == earlier.push(last));
        assert(put.to_multiset() =~= ordered.to_multiset().insert(sender));
        assert forall|i: int| 0 <= i < put.len() implies (#[trigger] put[i]) == sender
            || ordered.contains(put[i]) by {
            if i < earlier.len() {
                assert(put[i] == earlier[i]);
                if earlier[i] != sender {
                    let k = choose|k: int| 0 <= k < rest.len() && rest[k] == earlier[i];
                    assert(ordered[k] == put[i]);
                }
            } else {
                assert(ordered[ordered.len() - 1] == put[i]);
            }
        }
        assert forall|i: int, j: int| 0 <= i < j < put.len() implies !bytes_before(
            (#[trigger] put[j]).0,
            (#[trigger] put[i]).0,
        ) by {
            if j < earlier.len() {
                assert(put[i] == earlier[i] && put[j] == earlier[j]);
            } else {
                assert(put[i] == earlier[i]);
                bytes_are_ordered(sender.0, last.0);
                if earlier[i] != sender {
                    let k = choose|k: int| 0 <= k < rest.len() && rest[k] == earlier[i];
                    assert(!bytes_before(ordered[ordered.len() - 1].0, ordered[k].0));
                }
            }
        }
    } else {
        assert(put == ordered.push(sender));
        assert(put.to_multiset() =~= ordered.to_multiset().insert(sender));
        assert forall|i: int| 0 <= i < put.len() implies (#[trigger] put[i]) == sender
            || ordered.contains(put[i]) by {
            if i < ordered.len() {
                assert(ordered[i] == put[i]);
            }
        }
        assert forall|i: int, j: int| 0 <= i < j < put.len() implies !bytes_before(
            (#[trigger] put[j]).0,
            (#[trigger] put[i]).0,
        ) by {
            if j == ordered.len() {
                let end = ordered[ordered.len() - 1].0;
                if i < ordered.len() - 1 {
                    assert(!bytes_before(end, ordered[i].0));
                    if bytes_before(sender.0, ordered[i].0) {
                        bytes_go_on(sender.0, ordered[i].0, end);
                    }
                }
            } else {
                assert(put[i] == ordered[i] && put[j] == ordered[j]);
            }
        }
    }
}

/// What comes before bytes that others do not come before, comes before the others too.
proof fn bytes_go_on(a: Seq<u8>, b: Seq<u8>, c: Seq<u8>)
    requires
        bytes_before(a, b),
        !bytes_before(c, b),
    ensures
        bytes_before(a, c),
    decreases a.len(),
{
    if a.len() > 0 && b.len() > 0 && c.len() > 0 {
        if a[0] == b[0] && b[0] == c[0] {
            bytes_go_on(a.drop_first(), b.drop_first(), c.drop_first());
        }
    }
}

/// What the players sent is merged in the order of their keys, and nobody's is left out or comes twice.
pub proof fn senders_go_by_their_keys(sent: Seq<(Seq<u8>, int)>)
    ensures
        in_key_order(sent).to_multiset() == sent.to_multiset(),
        forall|i: int, j: int|
            0 <= i < j < in_key_order(sent).len() ==> !bytes_before(
                (#[trigger] in_key_order(sent)[j]).0,
                (#[trigger] in_key_order(sent)[i]).0,
            ),
    decreases sent.len(),
{
    broadcast use vstd::seq_lib::group_to_multiset_ensures;

    if sent.len() > 0 {
        senders_go_by_their_keys(sent.drop_last());
        put_keeps_order(in_key_order(sent.drop_last()), sent.last());
        assert(sent =~= sent.drop_last().push(sent.last()));
    } else {
        assert(in_key_order(sent) =~= sent);
    }
}

/// What one player signed is combined with the others' exactly where its extended keys come from the
/// same places; one whose do not adds nothing, and one that cannot be read makes it fail.
pub proof fn only_agreeing_signatures_are_merged(ours: Seq<char>, theirs: Seq<char>)
    ensures
        (key_sources(ours) is None || key_sources(theirs) is None) ==> merged_one(ours, theirs)
            == Err::<Seq<char>, SigningError>(SigningError::InvalidPsbt),
        key_sources(ours) is Some && key_sources(theirs) is Some && !sources_agree(
            key_sources(ours)->0,
            key_sources(theirs)->0,
        ) ==> merged_one(ours, theirs) == Ok::<Seq<char>, SigningError>(ours),
        key_sources(ours) is Some && key_sources(theirs) is Some && sources_agree(
            key_sources(ours)->0,
            key_sources(theirs)->0,
        ) ==> match combined(ours, theirs) {
            Some(text) => merged_one(ours, theirs) == Ok::<Seq<char>, SigningError>(text),
            None => merged_one(ours, theirs) is Err,
        },
{
}

/// A path agrees with another exactly if it is no shorter, or is the end of it.
pub proof fn shorter_paths_are_endings(ours: Seq<u32>, theirs: Seq<u32>)
    ensures
        paths_agree(ours, theirs) == (theirs.len() >= ours.len() || exists|from: int|
            0 <= from <= ours.len() && #[trigger] ours.skip(from) == theirs),
{
    if theirs.len() < ours.len() {
        let from = ours.len() - theirs.len();
        if paths_agree(ours, theirs) {
            assert(ours.skip(from) == theirs);
        }
        if exists|from: int| 0 <= from <= ours.len() && #[trigger] ours.skip(from) == theirs {
            let other = choose|other: int|
                0 <= other <= ours.len() && #[trigger] ours.skip(other) == theirs;
            assert(ours.skip(other).len() == ours.len() - other);
        }
    }
}

/// An input is ready exactly if it is finalised, or is an escrow with both signatures, or is another
/// with any; and each input that is not is told, once and in order.
pub proof fn unready_inputs_are_told(inputs: Seq<FundingInput>)
    requires
        inputs.len() <= usize::MAX,
    ensures
        forall|i: int|
            0 <= i < inputs.len() ==> (input_issue(#[trigger] inputs[i], i) is None == (
            inputs[i].finalized || (inputs[i].escrow && inputs[i].partial_sigs >= 2) || (
            !inputs[i].escrow && (inputs[i].partial_sigs > 0 || inputs[i].tap_key_sig)))),
        (input_issues(inputs).len() == 0) == (forall|i: int|
            0 <= i < inputs.len() ==> input_issue(#[trigger] inputs[i], i) is None),
        forall|issue: InputIssue| #[trigger]
            input_issues(inputs).contains(issue) <==> exists|i: int|
                0 <= i < inputs.len() && input_issue(#[trigger] inputs[i], i) == Some(issue),
        forall|i: int|
            0 <= i < inputs.len() ==> (input_issue(#[trigger] inputs[i], i) matches Some(issue)
                ==> issue == if inputs[i].escrow {
                InputIssue::EscrowSignatures(i as usize, inputs[i].partial_sigs)
            } else {
                InputIssue::Unsigned(i as usize)
            }),
    decreases inputs.len(),
{
    if inputs.len() > 0 {
        let fewer = inputs.drop_last();
        let last = inputs.len() - 1;
        unready_inputs_are_told(fewer);
        assert forall|i: int| 0 <= i < last implies #[trigger] fewer[i] == inputs[i] by {}
        assert(inputs[last] == inputs.last());
        let earlier = input_issues(fewer);
        let all = input_issues(inputs);
        assert forall|issue: InputIssue| #[trigger] all.contains(issue) <==> exists|i: int|
            0 <= i < inputs.len() && input_issue(#[trigger] inputs[i], i) == Some(issue) by {
            if all.contains(issue) {
                let k = choose|k: int| 0 <= k < all.len() && all[k] == issue;
                if k < earlier.len() {
                    assert(earlier[k] == issue);
                    assert(earlier.contains(issue));
                    let i = choose|i: int|
                        0 <= i < fewer.len() && input_issue(#[trigger] fewer[i], i) == Some(issue);
                    assert(input_issue(inputs[i], i) == Some(issue));
                } else {
                    assert(input_issue(inputs[last], last) == Some(issue));
                }
            }
            if exists|i: int|
                0 <= i < inputs.len() && input_issue(#[trigger] inputs[i], i) == Some(issue) {
                let i = choose|i: int|
                    0 <= i < inputs.len() && input_issue(#[trigger] inputs[i], i) == Some(issue);
                if i < last {
                    assert(input_issue(fewer[i], i) == Some(issue));
                    assert(earlier.contains(issue));
                    let k = choose|k: int| 0 <= k < earlier.len() && earlier[k] == issue;
                    assert(all[k] == issue);
                } else {
                    assert(all[earlier.len() as int] == issue);
                }
            }
        }
        if forall|i: int| 0 <= i < inputs.len() ==> input_issue(#[trigger] inputs[i], i) is None {
            assert forall|i: int| 0 <= i < fewer.len() implies input_issue(
                #[trigger] fewer[i],
                i,
            ) is None by {
                assert(input_issue(inputs[i], i) is None);
            }
            assert(input_issue(inputs[last], last) is None);
        }
        if all.len() == 0 {
            assert forall|i: int| 0 <= i < inputs.len() implies input_issue(
                #[trigger] inputs[i],
                i,
            ) is None by {
                if i < last {
                    assert(input_issue(fewer[i], i) is None);
                }
            }
        }
    }
}

/// A funding transaction is taken out exactly once it is finalised and every input spends an output
/// that there is, as far as is told.
pub proof fn funding_is_taken_out_once_finalised(psbt: Seq<char>, finalized: bool)
    ensures
        signed_funding(psbt, finalized) is Ok == (finalized && signed_inputs(psbt) is Some && (
        forall|i: int|
            0 <= i < (signed_inputs(psbt)->0).len() ==> {
                let input = #[trigger] (signed_inputs(psbt)->0)[i];
                input.witness_utxo || input.utxo_outputs is None || input.vout
                    < input.utxo_outputs->0
            }) && extracted(psbt) is Some),
        signed_funding(psbt, finalized) matches Ok(raw) ==> Some(raw) == extracted(psbt),
{
    if let Some(inputs) = signed_inputs(psbt) {
        assert forall|i: int| 0 <= i < inputs.len() implies spends_nothing(#[trigger] inputs[i])
            == !(inputs[i].witness_utxo || inputs[i].utxo_outputs is None || inputs[i].vout
            < inputs[i].utxo_outputs->0) by {}
        assert(spends_outputs(inputs) == (forall|i: int|
            0 <= i < inputs.len() ==> !spends_nothing(#[trigger] inputs[i])));
    }
}

/// The invoices that are settled are exactly those of the tickets that are paid and not settled yet, in
/// order.
pub proof fn paid_tickets_are_settled(tickets: Seq<Ticket>)
    ensures
        held_tickets(tickets) == tickets.filter(
            |ticket: Ticket| ticket.paid_at is Some && ticket.settled_at is None,
        ).map_values(|ticket: Ticket| ticket.id),
    decreases tickets.len(),
{
    let paid = |ticket: Ticket| ticket.paid_at is Some && ticket.settled_at is None;
    let id = |ticket: Ticket| ticket.id;
    reveal(Seq::filter);
    if tickets.len() > 0 {
        let fewer = tickets.drop_last();
        paid_tickets_are_settled(fewer);
        if paid(tickets.last()) {
            assert(fewer.filter(paid).push(tickets.last()).map_values(id) =~= fewer.filter(
                paid,
            ).map_values(id).push(tickets.last().id));
        }
    } else {
        assert(tickets.filter(paid).map_values(id) =~= Seq::empty());
    }
}

/// The escrow transactions that are looked up are those of all tickets that have one; a ticket whose
/// transaction cannot be read makes it fail.
pub proof fn every_escrow_transaction_is_looked_up(tickets: Seq<Ticket>)
    ensures
        progress::escrows_of(tickets) is Ok == (forall|i: int|
            0 <= i < tickets.len() && (#[trigger] tickets[i]).escrow_transaction is Some
                ==> escrow_parts((tickets[i].escrow_transaction->0)@) is Some),
        progress::escrows_of(tickets) matches Ok(found) ==> forall|id: Uuid, txid: Seq<u8>| #[trigger]
            found.contains((id, txid)) <==> exists|i: int|
                0 <= i < tickets.len() && (#[trigger] tickets[i]).id == id
                    && tickets[i].escrow_transaction is Some && (escrow_parts(
                    (tickets[i].escrow_transaction->0)@,
                )->0).0 == txid,
    decreases tickets.len(),
{
    if tickets.len() > 0 {
        let fewer = tickets.drop_last();
        let last = tickets.len() - 1;
        every_escrow_transaction_is_looked_up(fewer);
        assert forall|i: int| 0 <= i < last implies #[trigger] fewer[i] == tickets[i] by {}
        assert(tickets[last] == tickets.last());
        if progress::escrows_of(fewer) is Ok {
            assert forall|i: int|
                0 <= i < last && (#[trigger] tickets[i]).escrow_transaction is Some implies escrow_parts(
                (tickets[i].escrow_transaction->0)@,
            ) is Some by {
                assert(fewer[i] == tickets[i]);
            }
            let earlier = progress::escrows_of(fewer)->Ok_0;
            if let Ok(found) = progress::escrows_of(tickets) {
                assert forall|id: Uuid, txid: Seq<u8>| #[trigger]
                    found.contains((id, txid)) <==> exists|i: int|
                        0 <= i < tickets.len() && (#[trigger] tickets[i]).id == id
                            && tickets[i].escrow_transaction is Some && (escrow_parts(
                            (tickets[i].escrow_transaction->0)@,
                        )->0).0 == txid by {
                    if found.contains((id, txid)) {
                        let k = choose|k: int| 0 <= k < found.len() && found[k] == (id, txid);
                        if k < earlier.len() {
                            assert(earlier[k] == (id, txid));
                            assert(earlier.contains((id, txid)));
                            let i = choose|i: int|
                                0 <= i < fewer.len() && (#[trigger] fewer[i]).id == id
                                    && fewer[i].escrow_transaction is Some && (escrow_parts(
                                    (fewer[i].escrow_transaction->0)@,
                                )->0).0 == txid;
                            assert(tickets[i].id == id);
                        } else {
                            assert(tickets[last].id == id);
                        }
                    }
                    if exists|i: int|
                        0 <= i < tickets.len() && (#[trigger] tickets[i]).id == id
                            && tickets[i].escrow_transaction is Some && (escrow_parts(
                            (tickets[i].escrow_transaction->0)@,
                        )->0).0 == txid {
                        let i = choose|i: int|
                            0 <= i < tickets.len() && (#[trigger] tickets[i]).id == id
                                && tickets[i].escrow_transaction is Some && (escrow_parts(
                                (tickets[i].escrow_transaction->0)@,
                            )->0).0 == txid;
                        if i < last {
                            assert(fewer[i].id == id);
                            assert(earlier.contains((id, txid)));
                            let k = choose|k: int|
                                0 <= k < earlier.len() && earlier[k] == (id, txid);
                            assert(found[k] == (id, txid));
                        } else {
                            assert(found[earlier.len() as int] == (id, txid));
                        }
                    }
                }
            }
        } else {
            let i = choose|i: int|
                0 <= i < fewer.len() && (#[trigger] fewer[i]).escrow_transaction is Some
                    && escrow_parts((fewer[i].escrow_transaction->0)@) is None;
            assert(fewer[i] == tickets[i]);
        }
    }
}

/// A transaction is confirmed exactly if the chain knows it and it is as deep as is required.
pub proof fn confirmations_are_counted(confirmations: Option<u32>, required: u32)
    ensures
        confirmed(confirmations, required) == (confirmations is Some && confirmations->0
            >= required),
{
}

/// An outcome transaction is built exactly for the outcome that the attestation unlocks, which has to
/// be one that was announced, once the contract is signed and unless it was published before.
pub proof fn attested_outcomes_are_published(competition: Competition, index: usize)
    ensures
        (outcome_plan(competition) == Ok::<OutcomePlan, SettlementError>(OutcomePlan::Published))
            == (competition.outcome_broadcasted_at is Some && competition.outcome_transaction
            is Some),
        (outcome_plan(competition) == Ok::<OutcomePlan, SettlementError>(OutcomePlan::Build(index)))
            == (!(competition.outcome_broadcasted_at is Some && competition.outcome_transaction
            is Some) && competition.attestation is Some && competition.signed_contract is Some
            && competition.event_announcement is Some && current_outcome(competition) == Ok::<
            Outcome,
            SettlementError,
        >(Outcome::Attestation(index)) && index < (
        competition.event_announcement->0).locking_points@.len()),
{
}

/// A fee is the least whole number of satoshis that pays the rate for the weight.
pub proof fn fees_round_up(weight: u64, fee_rate: u64)
    ensures
        1000 * sweep_fee(weight, fee_rate) >= fee_rate * weight,
        1000 * (sweep_fee(weight, fee_rate) - 1) < fee_rate * weight,
{
    assert(fee_rate * weight >= 0) by (nonlinear_arith);
}

/// A sweep is made exactly if there is something to spend, to a compressed key, and it covers the fee
/// at the rate.
pub proof fn sweeps_cover_their_fee(
    market_maker: Seq<u8>,
    spent: Option<crate::dlc_spends::SpentOutputView>,
    weight: Option<u64>,
    fee_rate: u64,
)
    ensures
        swept(market_maker, spent, weight, fee_rate) is Ok == (spent is Some && weight is Some
            && market_maker.len() == 33 && fee_rate * weight->0 + 999 <= u64::MAX && fee_rate
            * weight->0 <= 1000 * (spent->0).value),
{
    if weight is Some && spent is Some {
        fees_round_up(weight->0, fee_rate);
        assert(fee_is_covered((spent->0).value, weight->0, fee_rate) == (fee_rate * weight->0 + 999
            <= u64::MAX && sweep_fee(weight->0, fee_rate) <= (spent->0).value));
    }
}

/// A number's bytes tell it, the lowest first.
pub proof fn bytes_tell_their_number(n: u32)
    ensures
        le_bytes(n).len() == 4,
        n == le_bytes(n)[0] + 256 * le_bytes(n)[1] + 65536 * le_bytes(n)[2] + 16777216 * le_bytes(
            n,
        )[3],
{
    let bytes = le_bytes(n);
    assert(bytes[0] == n % 256);
    assert(bytes[1] == n / 256 % 256);
    assert(bytes[2] == n / 65536 % 256);
    assert(bytes[3] == n / 16777216);
}

/// A larger number's bytes are those of its lower half, and then those of its upper half.
pub proof fn halves_tell_their_number(m: u64, low: u32, high: u32)
    requires
        m == low + high * 4294967296,
    ensures
        le_bytes8(m).len() == 8,
        forall|i: int| 0 <= i < 4 ==> #[trigger] le_bytes8(m)[i] == le_bytes(low)[i],
        forall|i: int| 4 <= i < 8 ==> #[trigger] le_bytes8(m)[i] == le_bytes(high)[i - 4],
{
    assert(m % 4294967296 == low && m / 4294967296 == high);
}

/// A sweep pays to the x coordinate of the key: version one, and 32 bytes of it.
pub proof fn sweeps_pay_to_the_key(pubkey: Seq<u8>)
    requires
        pubkey.len() == 33,
    ensures
        p2tr_script(pubkey).len() == 34,
        p2tr_script(pubkey)[0] == 0x51,
        p2tr_script(pubkey)[1] == 0x20,
        forall|i: int| 1 <= i < 33 ==> p2tr_script(pubkey)[i + 1] == #[trigger] pubkey[i],
{
}

/// The keys that close an outcome are those that the winners gave up, each with the point of its own
/// entry, in order; only what cannot be read is left out.
pub proof fn closes_use_the_winners_keys(entries: Seq<UserEntry>, winners: Seq<Winner>)
    requires
        forall|i: int|
            0 <= i < winners.len() ==> {
                let entry = entries[(#[trigger] winners[i]).entry_index as int];
                &&& entry.ephemeral_privatekey is Some
                &&& scalar_of_hex((entry.ephemeral_privatekey->0)@) is Some
                &&& point_of_hex(entry.ephemeral_pubkey@) is Some
            },
    ensures
        winner_keys(entries, winners).len() == winners.len(),
        forall|i: int|
            0 <= i < winners.len() ==> {
                let entry = entries[winners[i].entry_index as int];
                #[trigger] winner_keys(entries, winners)[i] == (
                    point_of_hex(entry.ephemeral_pubkey@)->0,
                    scalar_of_hex((entry.ephemeral_privatekey->0)@)->0,
                )
            },
    decreases winners.len(),
{
    if winners.len() > 0 {
        let fewer = winners.drop_last();
        let last = winners.len() - 1;
        assert forall|i: int| 0 <= i < last implies #[trigger] fewer[i] == winners[i] by {}
        assert forall|i: int| 0 <= i < fewer.len() implies {
            let entry = entries[(#[trigger] fewer[i]).entry_index as int];
            &&& entry.ephemeral_privatekey is Some
            &&& scalar_of_hex((entry.ephemeral_privatekey->0)@) is Some
            &&& point_of_hex(entry.ephemeral_pubkey@) is Some
        } by {
            assert(fewer[i] == winners[i]);
        }
        closes_use_the_winners_keys(entries, fewer);
        assert(winners[last] == winners.last());
        let pair = key_pair(entries[winners[last].entry_index as int]);
        assert(pair is Some);
        assert(winner_keys(entries, winners) == winner_keys(entries, fewer).push(pair->0));
        assert forall|i: int| 0 <= i < winners.len() implies {
            let entry = entries[winners[i].entry_index as int];
            #[trigger] winner_keys(entries, winners)[i] == (
                point_of_hex(entry.ephemeral_pubkey@)->0,
                scalar_of_hex((entry.ephemeral_privatekey->0)@)->0,
            )
        } by {
            if i < last {
                assert(winner_keys(entries, winners)[i] == winner_keys(entries, fewer)[i]);
                assert(fewer[i] == winners[i]);
            }
        }
    }
}

/// A sweep spends the one output, at its sequence, and pays all that it holds, less the fee, to the
/// market maker's key; it pays nobody else and can be mined at once.
pub proof fn sweeps_pay_all_but_the_fee(
    market_maker: Seq<u8>,
    spent: SpentOutputView,
    weight: u64,
    fee_rate: u64,
)
    requires
        market_maker.len() == 33,
        spent.txid.len() == 32,
        fee_is_covered(spent.value, weight, fee_rate),
    ensures
        swept(market_maker, Some(spent), Some(weight), fee_rate) matches Ok(raw) && {
            &&& raw.len() == 94
            &&& raw.subrange(0, 5) == seq![2u8, 0u8, 0u8, 0u8, 1u8]
            &&& raw.subrange(5, 37) == spent.txid
            &&& raw.subrange(37, 41) == le_bytes(spent.vout)
            &&& raw[41] == 0
            &&& raw.subrange(42, 46) == le_bytes(spent.sequence)
            &&& raw[46] == 1
            &&& raw.subrange(47, 55) == le_bytes8(
                (spent.value - sweep_fee(weight, fee_rate)) as u64,
            )
            &&& raw[55] == 34
            &&& raw.subrange(56, 90) == p2tr_script(market_maker)
            &&& raw.subrange(90, 94) == seq![0u8, 0u8, 0u8, 0u8]
        },
{
    let raw = swept(market_maker, Some(spent), Some(weight), fee_rate)->Ok_0;
    let value = (spent.value - sweep_fee(weight, fee_rate)) as u64;
    let script = p2tr_script(market_maker);
    assert(script.len() == 34);
    assert(le_bytes(2) =~= seq![2u8, 0u8, 0u8, 0u8]);
    assert(le_bytes(0) =~= seq![0u8, 0u8, 0u8, 0u8]);
    assert(raw == sweep_encoding(spent.txid, spent.vout, spent.sequence, value, script));
    assert(raw.subrange(0, 5) =~= seq![2u8, 0u8, 0u8, 0u8, 1u8]);
    assert(raw.subrange(5, 37) =~= spent.txid);
    assert(raw.subrange(37, 41) =~= le_bytes(spent.vout));
    assert(raw.subrange(42, 46) =~= le_bytes(spent.sequence));
    assert(raw.subrange(47, 55) =~= le_bytes8(value));
    assert(raw.subrange(56, 90) =~= script);
    assert(raw.subrange(90, 94) =~= seq![0u8, 0u8, 0u8, 0u8]);
}

/// An outcome is split for the winner with the preimage of their ticket, which is 32 bytes in
/// hexadecimal: of the very outcome and for the very player.
pub proof fn splits_need_the_ticket(
    contract: SignedContract,
    outcome: Outcome,
    player_index: usize,
    preimage: Seq<char>,
)
    ensures
        ({
            let attested = match outcome {
                Outcome::Attestation(index) => Some(index),
                Outcome::Expiry => None,
            };
            let split = split_transaction(
                contract.encoded@,
                attested,
                player_index,
                hex_bytes(preimage),
            );
            let told = split_of(contract, outcome, player_index, preimage);
            &&& told is Ok == (is_hex(preimage) && preimage.len() == 64 && split is Some)
            &&& told matches Ok(raw) ==> split == Some(raw)
        }),
{
}

/// What the market maker takes back is swept from the output that pays it, with the weight of the way
/// in which it is spent: a whole outcome and a share by closing them with the keys that were given
/// up, and a share that nobody claimed by reclaiming it.
pub proof fn each_output_is_swept_in_its_own_way(
    contract: SignedContract,
    outcome: Outcome,
    entries: Seq<UserEntry>,
    winners: Seq<Winner>,
    player_index: usize,
    entry: UserEntry,
    key: Seq<u8>,
    fee_rate: u64,
)
    ensures
        ({
            let text = contract.encoded@;
            let attested = match outcome {
                Outcome::Attestation(index) => Some(index),
                Outcome::Expiry => None,
            };
            let maker = contract.params.market_maker@;
            let whole = swept(
                maker,
                outcome_output(text, attested),
                closing_weight(text, 34),
                fee_rate,
            );
            let closed = swept(
                maker,
                closed_share(text, attested, player_index),
                closing_weight(text, 34),
                fee_rate,
            );
            let reclaimed = swept(
                maker,
                reclaimed_share(text, attested, player_index),
                reclaiming_weight(text, 34),
                fee_rate,
            );
            let keys = winner_keys_text(entries, winners);
            let close = close_of(contract, outcome, entries, winners, key, fee_rate);
            let share_close = share_close_of(contract, outcome, player_index, entry, key, fee_rate);
            let share_reclaim = share_reclaim_of(contract, outcome, player_index, key, fee_rate);
            &&& close is Ok == (whole is Ok && closed_outcome(
                text,
                attested,
                whole->Ok_0,
                0,
                key,
                keys,
            ) is Some)
            &&& close matches Ok(raw) ==> closed_outcome(text, attested, whole->Ok_0, 0, key, keys)
                == Some(raw)
            &&& share_close is Ok ==> closed is Ok && entry.ephemeral_privatekey is Some
                && scalar_of_hex((entry.ephemeral_privatekey->0)@) is Some && closed_split(
                text,
                attested,
                player_index,
                closed->Ok_0,
                0,
                key,
                scalar_of_hex((entry.ephemeral_privatekey->0)@)->0,
            ) == Some(share_close->Ok_0)
            &&& share_close is Err ==> closed is Err || entry.ephemeral_privatekey is None
                || scalar_of_hex((entry.ephemeral_privatekey->0)@) is None || closed_split(
                text,
                attested,
                player_index,
                closed->Ok_0,
                0,
                key,
                scalar_of_hex((entry.ephemeral_privatekey->0)@)->0,
            ) is None
            &&& share_reclaim is Ok == (reclaimed is Ok && reclaimed_split(
                text,
                attested,
                player_index,
                reclaimed->Ok_0,
                0,
                key,
            ) is Some)
            &&& share_reclaim matches Ok(raw) ==> reclaimed_split(
                text,
                attested,
                player_index,
                reclaimed->Ok_0,
                0,
                key,
            ) == Some(raw)
        }),
{
}

/// A funding transaction that was kept is kept, and one that was not is kept with the output in it
/// that funds the contract; nothing else changes.
pub proof fn the_first_funding_is_kept(
    before: Competition,
    after: Competition,
    psbt: Seq<char>,
    txid: Seq<u8>,
    vout: u32,
)
    requires
        keeps_funding(before, after, psbt, txid, vout),
    ensures
        after.funding_psbt_base64 is Some,
        before.funding_psbt_base64 is Some ==> after == before,
        before.funding_psbt_base64 is None ==> (after.funding_psbt_base64->0)@ == psbt
            && after.funding_outpoint is Some && (after.funding_outpoint->0).txid@ == txid && (
        after.funding_outpoint->0).vout == vout,
        after == (Competition {
            funding_psbt_base64: after.funding_psbt_base64,
            funding_outpoint: after.funding_outpoint,
            ..before
        }),
{
}

/// A contract is finished at once where the coordinator signs, with the nonces that it draws; where
/// Keymeld signs, only once the key of every entry was handed over, in order and from the first.
pub proof fn contracts_are_finished_when_everyone_is_registered(
    coordinator: Coordinator,
    before: Competition,
    after: Competition,
    entries: Seq<UserEntry>,
    outpoint: (Seq<u8>, u32),
    key: Seq<u8>,
    now: Timestamp,
    step: Result<BuildStep, BuildError>,
)
    requires
        coordinator.goes_on(before, after, entries, outpoint, key, now, step),
    ensures
        step is Ok ==> before.contract_parameters is Some && crate::terms::built(
            before.contract_parameters->0,
            outpoint.0,
            outpoint.1,
        ) is Ok,
        step matches Ok(BuildStep::Register { index, data }) ==> coordinator.keymeld_enabled && index
            == 0 && entries.len() > 0 && registration_of(entries[0]) == Ok::<
            ParticipantRegistrationData,
            ContractError,
        >(data) && after == before,
        (step matches Ok(BuildStep::Finished)) ==> !coordinator.keymeld_enabled || entries.len() == 0,
        (step matches Ok(BuildStep::Finished)) && !coordinator.keymeld_enabled
            && before.public_nonces is None ==> (crate::terms::nonces_of(
            before.contract_parameters->0,
            outpoint.0,
            outpoint.1,
            key,
        ) matches Ok(drawn) && after.public_nonces is Some && (after.public_nonces->0).text()
            == drawn),
        step is Err ==> after == before,
        step is Ok ==> (step matches Ok(BuildStep::Register { .. })) || (step matches Ok(
            BuildStep::Finished,
        )),
{
}

/// Each registration leads to that of the next entry, and the last one to the finished contract.
pub proof fn every_entry_is_registered_in_turn(
    coordinator: Coordinator,
    before: Competition,
    after: Competition,
    entries: Seq<UserEntry>,
    index: int,
    now: Timestamp,
    step: Result<BuildStep, BuildError>,
)
    requires
        0 <= index,
        coordinator.registers(before, after, entries, index, now, step),
    ensures
        (step matches Ok(BuildStep::Finished)) == (index >= entries.len()),
        step matches Ok(BuildStep::Register { index: at, data }) ==> at == index && index
            < entries.len() && registration_of(entries[index]) == Ok::<
            ParticipantRegistrationData,
            ContractError,
        >(data),
        index < entries.len() ==> after == before && (step is Ok) == (registration_of(
            entries[index],
        ) is Ok),
        index >= entries.len() ==> after.contracted_at == Some(now) && after.errors@.len() == 0
            && after.public_nonces is Some && (before.public_nonces is Some ==> after.public_nonces
            == before.public_nonces) && after == (Competition {
            public_nonces: after.public_nonces,
            contracted_at: after.contracted_at,
            errors: after.errors,
            ..before
        }),
{
}

/// What is signed to fund a contract is its own funding transaction; where there are escrows, with
/// what every player signed, and only once every entry has sent theirs under a key of its own.
pub proof fn funding_waits_for_every_player(
    coordinator: Coordinator,
    competition: Competition,
    entries: Seq<UserEntry>,
)
    ensures
        ({
            let told = coordinator.funding_to_sign(competition, entries);
            &&& told is Ok ==> competition.funding_psbt_base64 is Some && key_sources(
                (competition.funding_psbt_base64->0)@,
            ) is Some
            &&& !coordinator.escrow_enabled ==> told is Ok == (competition.funding_psbt_base64
                is Some && key_sources((competition.funding_psbt_base64->0)@) is Some)
            &&& !coordinator.escrow_enabled && told is Ok ==> told->Ok_0 == (
            competition.funding_psbt_base64->0)@
            &&& coordinator.escrow_enabled && told is Ok ==> all_sent_apart(
                entries,
                |entry: UserEntry| sent_signatures(entry),
            ) && entries.len() >= competition.total_entries && (entries.len() == 0 ==> told->Ok_0 == (
            competition.funding_psbt_base64->0)@)
        }),
{
    let signatures = |entry: UserEntry| sent_signatures(entry);
    everyone_signs_under_their_own_key(entries, signatures);
    if coordinator.escrow_enabled && coordinator.funding_to_sign(competition, entries) is Ok {
        let senders = all_sent(entries, signatures)->Ok_0;
        if entries.len() == 0 {
            assert(in_key_order(senders) =~= senders);
            assert(sent_psbts(entries, senders) =~= Seq::empty());
        }
    }
}

/// What the players signed is merged one after the other, each into what came before.
pub proof fn each_signature_is_merged(ours: Seq<char>, sent: Seq<Seq<char>>, next: Seq<char>)
    ensures
        merged(ours, Seq::empty()) == Ok::<Seq<char>, SigningError>(ours),
        merged(ours, sent) is Err ==> merged(ours, sent.push(next)) == merged(ours, sent),
        merged(ours, sent) matches Ok(text) ==> merged(ours, sent.push(next)) == merged_one(
            text,
            next,
        ),
{
    assert(sent.push(next).drop_last() =~= sent);
}

/// Every player's funding transaction is merged, and no other.
pub proof fn every_funding_is_merged(entries: Seq<UserEntry>, sent: Seq<(Seq<u8>, int)>, at: int)
    requires
        0 <= at < sent.len(),
    ensures
        sent_psbts(entries, sent).len() == sent.len(),
        sent_psbts(entries, sent).contains((entries[sent[at].1].funding_psbt_base64->0)@),
{
    broadcast use vstd::seq_lib::group_to_multiset_ensures;

    senders_go_by_their_keys(sent);
    let ordered = in_key_order(sent);
    assert(sent.to_multiset().len() == sent.len());
    assert(ordered.to_multiset().len() == ordered.len());
    assert(sent.contains(sent[at]));
    assert(sent.to_multiset().count(sent[at]) > 0);
    assert(ordered.contains(sent[at]));
    let k = choose|k: int| 0 <= k < ordered.len() && ordered[k] == sent[at];
    assert(sent_psbts(entries, sent)[k] == (entries[sent[at].1].funding_psbt_base64->0)@);
}

/// Two contracts with the same terms differ in nothing that was agreed on.
pub proof fn same_terms_agree_in_everything(a: ContractParameters, b: ContractParameters)
    requires
        a.same_terms(b),
    ensures
        a.market_maker@ == b.market_maker@,
        a.fee_rate == b.fee_rate,
        a.funding_value == b.funding_value,
        a.relative_locktime_block_delta == b.relative_locktime_block_delta,
        a.event.expiry == b.event.expiry,
        crate::contract::attestations_view(a.outcome_payouts.attestations)
            == crate::contract::attestations_view(b.outcome_payouts.attestations),
        crate::contract::expiry_view(a.outcome_payouts.expiry) == crate::contract::expiry_view(
            b.outcome_payouts.expiry,
        ),
        a.players@.len() == b.players@.len(),
        forall|i: int|
            0 <= i < a.players@.len() ==> (#[trigger] a.players@[i]).pubkey@ == b.players@[i].pubkey@
                && a.players@[i].ticket_hash@ == b.players@[i].ticket_hash@
                && a.players@[i].payout_hash@ == b.players@[i].payout_hash@,
        a.event.locking_points@.len() == b.event.locking_points@.len(),
        forall|i: int|
            0 <= i < a.event.locking_points@.len() ==> (#[trigger] a.event.locking_points@[i])@
                == b.event.locking_points@[i]@,
{
    let ours = crate::contract::players_view(a.players@);
    let theirs = crate::contract::players_view(b.players@);
    assert(ours.len() == theirs.len());
    assert forall|i: int| 0 <= i < a.players@.len() implies (#[trigger] a.players@[i]).pubkey@
        == b.players@[i].pubkey@ && a.players@[i].ticket_hash@ == b.players@[i].ticket_hash@
        && a.players@[i].payout_hash@ == b.players@[i].payout_hash@ by {
        assert(ours[i] == theirs[i]);
    }
    let points = crate::contract::points_view(a.event.locking_points@);
    let others = crate::contract::points_view(b.event.locking_points@);
    assert(points.len() == others.len());
    assert forall|i: int| 0 <= i < a.event.locking_points@.len() implies (
    #[trigger] a.event.locking_points@[i])@ == b.event.locking_points@[i]@ by {
        assert(points[i] == others[i]);
    }
}

/// The nonces that are aggregated are those of the competition's own contract; Keymeld keeps its own,
/// and so nothing is aggregated where it signs.
pub proof fn aggregated_nonces_are_the_contracts(
    coordinator: Coordinator,
    competition: Competition,
    entries: Seq<UserEntry>,
    key: Seq<u8>,
)
    ensures
        coordinator.keymeld_enabled ==> coordinator.aggregated(competition, entries, key) == Ok::<
            Option<(Seq<char>, Seq<char>)>,
            SigningError,
        >(None),
        coordinator.aggregated(competition, entries, key) matches Ok(Some(made)) ==> {
            &&& !coordinator.keymeld_enabled
            &&& competition.contract_parameters is Some
            &&& competition.funding_outpoint is Some
            &&& competition.public_nonces is Some
            &&& crate::contract_signing::aggregate_of(
                competition.contract_parameters->0,
                competition.funding_outpoint->0,
                competition.public_nonces->0,
                entries,
                key,
            ) == Ok::<(Seq<char>, Seq<char>), SigningError>(made)
        },
        !coordinator.keymeld_enabled ==> !(coordinator.aggregated(competition, entries, key)
            matches Ok(None)),
{
}

} // verus!
