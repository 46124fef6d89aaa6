//! What holds of every roster that is accepted, of every contract that is bound, and of every batch
//! that funds a pool.

use crate::arkade::TicketArkEscrow;
use crate::binding::{
    binding_fault, bindings_fault, bound_before, first_fault, is_bound, participant_with,
    participants_of, takes_part, BindingTerms, ContractBinding, EntryConsent, ParticipantView,
};
use crate::chain::{named_output, x_coordinate};
use crate::competition::Uuid;
use crate::encoding::{hex_bytes, is_hex};
use crate::entries::{RegistrationContext, UserEntry};
use crate::ids::version;
use crate::kickoff::{escrowed, funding_fault, holder_of, input_of, inputs_of, players_of};
use crate::kickoff_signing::{
    bytes_are_ordered, bytes_before, group_before, group_fault, groups_requests, request_fault,
    signature_of, InputSignature, SigningRequest,
};
use crate::rankings::possible_outcomes;
use crate::roster::{
    are_new_ids, ascending_ids, defines_subsets, expected_of, ids_ascend_one_way, players_among,
    registration_agrees, roster_fault, roster_key_of, signers, sorted_ids, subset_fault,
    subset_with, subsets_fault, DlcSubsetInfo, KeygenSession, ParticipantRoster, SubsetDefinition,
};
use vstd::prelude::*;

verus! {

/// The ids of a set below `upto`, the lowest first.
spec fn ids_below(set: Set<Uuid>, upto: int) -> Seq<Uuid>
    decreases upto,
{
    if upto <= 0 {
        Seq::empty()
    } else if set.contains((upto - 1) as u128) {
        ids_below(set, upto - 1).push((upto - 1) as u128)
    } else {
        ids_below(set, upto - 1)
    }
}

/// The ids below `upto` ascend.
proof fn ids_below_ascend(set: Set<Uuid>, upto: int)
    requires
        0 <= upto <= u128::MAX + 1,
    ensures
        forall|i: int|
            0 <= i < ids_below(set, upto).len() ==> (#[trigger] ids_below(set, upto)[i]) < upto
                && set.contains(ids_below(set, upto)[i]),
        forall|i: int, j: int|
            0 <= i < j < ids_below(set, upto).len() ==> (#[trigger] ids_below(set, upto)[i]) < (
            #[trigger] ids_below(set, upto)[j]),
        forall|id: Uuid|
            id < upto && #[trigger] set.contains(id) ==> ids_below(set, upto).contains(id),
    decreases upto,
{
    if upto > 0 {
        ids_below_ascend(set, upto - 1);
        let fewer = ids_below(set, upto - 1);
        let more = ids_below(set, upto);
        assert forall|id: Uuid| id < upto && #[trigger] set.contains(id) implies more.contains(
            id,
        ) by {
            if id < upto - 1 {
                assert(fewer.contains(id));
                let i = choose|i: int| 0 <= i < fewer.len() && fewer[i] == id;
                assert(more[i] == id);
            } else {
                assert(more[fewer.len() as int] == id);
            }
        }
    }
}

/// The players among the participants are all but the coordinator, each once, the lowest id first.
pub proof fn players_are_all_but_the_coordinator(participants: Set<Uuid>, coordinator: Uuid)
    ensures
        ({
            let players = players_among(participants, coordinator);
            &&& forall|id: Uuid| #[trigger]
                players.contains(id) <==> participants.contains(id) && id != coordinator
            &&& forall|i: int, j: int|
                0 <= i < j < players.len() ==> (#[trigger] players[i]) < (#[trigger] players[j])
        }),
{
    let set = participants.remove(coordinator);
    let ids = ids_below(set, u128::MAX + 1);
    ids_below_ascend(set, u128::MAX + 1);
    assert forall|id: Uuid| ids.contains(id) <==> #[trigger] set.contains(id) by {
        if ids.contains(id) {
            let i = choose|i: int| 0 <= i < ids.len() && ids[i] == id;
            assert(set.contains(ids[i]));
        }
    }
    assert(ascending_ids(ids, set));
    ids_ascend_one_way(ids, set);
    assert(sorted_ids(set) == ids);
    assert forall|id: Uuid| #[trigger] ids.contains(id) <==> participants.contains(id) && id
        != coordinator by {
        assert(set.contains(id) == (participants.contains(id) && id != coordinator));
    }
}

/// The coordinator signs first, and then the winners in the order of their places, and nobody else.
pub open spec fn signs_for(
    signing: Seq<Uuid>,
    coordinator: Uuid,
    players: Seq<Uuid>,
    winners: Seq<usize>,
) -> bool {
    &&& signing.len() == winners.len() + 1
    &&& signing[0] == coordinator
    &&& forall|i: int|
        0 <= i < winners.len() ==> signing[i + 1] == players[#[trigger] winners[i] as int]
}

/// One list of signers is the right one.
proof fn one_list_signs(
    signing: Seq<Uuid>,
    coordinator: Uuid,
    players: Seq<Uuid>,
    winners: Seq<usize>,
)
    ensures
        signs_for(signing, coordinator, players, winners) == (signing == signers(
            coordinator,
            players,
            winners,
        )),
{
    let expected = signers(coordinator, players, winners);
    assert(signs_for(expected, coordinator, players, winners)) by {
        assert forall|i: int| 0 <= i < winners.len() implies expected[i + 1] == players[
        #[trigger] winners[i] as int] by {}
    }
    if signs_for(signing, coordinator, players, winners) {
        assert forall|j: int| 0 <= j < signing.len() implies signing[j] == expected[j] by {
            if j > 0 {
                assert(signing[(j - 1) + 1] == players[winners[j - 1] as int]);
            }
        }
        assert(signing =~= expected);
    }
}

/// The first subset with an id has it, and no earlier one has.
proof fn subset_is_first(subsets: Seq<SubsetDefinition>, id: Uuid, from: int)
    requires
        0 <= from,
    ensures
        match subset_with(subsets, id, from) {
            Some(at) => from <= at < subsets.len() && subsets[at].subset_id == id && forall|i: int|
                from <= i < at ==> (#[trigger] subsets[i]).subset_id != id,
            None => forall|i: int|
                from <= i < subsets.len() ==> (#[trigger] subsets[i]).subset_id != id,
        },
    decreases subsets.len() - from,
{
    if from < subsets.len() {
        subset_is_first(subsets, id, from + 1);
    }
}

/// Where an outcome has a fault, the first fault is told, and where none has, none is.
proof fn no_subset_fault(
    outcomes: Seq<Seq<usize>>,
    session: KeygenSession,
    players: Seq<Uuid>,
    subsets: Seq<SubsetDefinition>,
    from: int,
)
    requires
        0 <= from,
    ensures
        subsets_fault(outcomes, session, players, subsets, from) is None == (forall|o: int|
            from <= o < outcomes.len() ==> subset_fault(
                o as usize,
                signers(session.coordinator_user_id, players, #[trigger] outcomes[o]),
                session.outcome_subset_ids@,
                subsets,
            ) is None),
    decreases outcomes.len() - from,
{
    if from < outcomes.len() {
        no_subset_fault(outcomes, session, players, subsets, from + 1);
        if subsets_fault(outcomes, session, players, subsets, from) is None {
            assert forall|o: int| from <= o < outcomes.len() implies subset_fault(
                o as usize,
                signers(session.coordinator_user_id, players, #[trigger] outcomes[o]),
                session.outcome_subset_ids@,
                subsets,
            ) is None by {}
        } else if forall|o: int|
            from <= o < outcomes.len() ==> subset_fault(
                o as usize,
                signers(session.coordinator_user_id, players, #[trigger] outcomes[o]),
                session.outcome_subset_ids@,
                subsets,
            ) is None {
            assert(subset_fault(
                from as usize,
                signers(session.coordinator_user_id, players, outcomes[from]),
                session.outcome_subset_ids@,
                subsets,
            ) is None);
        }
    }
}

/// A roster is accepted exactly if its participants and their keys are those that are expected and
/// the key is not tweaked; if each is registered with the enclave that the session assigned to them,
/// without asking for approval, and each player as their entry was accepted; if there are as many
/// subsets as outcomes, and for each outcome the first subset under its id is the coordinator and the
/// outcome's winners; and if the aggregate key is the session's, where the session has one.
pub proof fn accepted_rosters_are_the_competitions(
    session: KeygenSession,
    roster: ParticipantRoster,
    expected_keys: Map<Uuid, Vec<u8>>,
    expected_contexts: Map<Uuid, RegistrationContext>,
    places: nat,
)
    requires
        possible_outcomes(
            players_among(expected_keys.dom(), session.coordinator_user_id).len(),
            places,
        ).len() <= usize::MAX,
    ensures
        ({
            let players = players_among(expected_keys.dom(), session.coordinator_user_id);
            let outcomes = possible_outcomes(players.len(), places);
            let ids = session.outcome_subset_ids@;
            let subsets = roster.subset_definitions@;
            roster_fault(session, roster, expected_keys, expected_contexts, places) is None == {
                &&& roster.participants@.dom() == expected_keys.dom()
                &&& forall|id: Uuid| #[trigger]
                    roster.participants@.contains_key(id) ==> roster.participants@[id]@
                        == expected_keys[id]@
                &&& !roster.tweaked
                &&& forall|user: Uuid| #[trigger]
                    roster.registrations@.contains_key(user) ==> {
                        let context = roster.registrations@[user];
                        &&& session.user_enclave_assignments@.contains_key(user)
                        &&& session.user_enclave_assignments@[user] == context.enclave_id
                        &&& !context.require_signing_approval
                        &&& user == session.coordinator_user_id || (expected_contexts.contains_key(
                            user,
                        ) && expected_contexts[user]@ == context@)
                    }
                &&& ids.len() == outcomes.len()
                &&& subsets.len() == outcomes.len()
                &&& forall|o: int|
                    0 <= o < outcomes.len() ==> has_subset(
                        ids,
                        subsets,
                        session.coordinator_user_id,
                        players,
                        o as usize,
                        #[trigger] outcomes[o],
                    )
                &&& session.aggregate_key@.len() > 0 ==> session.aggregate_key@
                    == roster.aggregate_public_key@
            }
        }),
{
    let players = players_among(expected_keys.dom(), session.coordinator_user_id);
    let outcomes = possible_outcomes(players.len(), places);
    let ids = session.outcome_subset_ids@;
    let subsets = roster.subset_definitions@;
    no_subset_fault(outcomes, session, players, subsets, 0);
    assert forall|o: int| 0 <= o < outcomes.len() implies has_subset(
        ids,
        subsets,
        session.coordinator_user_id,
        players,
        o as usize,
        #[trigger] outcomes[o],
    ) == (subset_fault(
        o as usize,
        signers(session.coordinator_user_id, players, outcomes[o]),
        ids,
        subsets,
    ) is None) by {
        let id = ids[o as usize];
        subset_is_first(subsets, id, 0);
        if let Some(at) = subset_with(subsets, id, 0) {
            one_list_signs(
                subsets[at].participants@,
                session.coordinator_user_id,
                players,
                outcomes[o],
            );
            if has_subset(
                ids,
                subsets,
                session.coordinator_user_id,
                players,
                o as usize,
                outcomes[o],
            ) {
                let other = choose|other: int|
                    is_first_subset(subsets, id, other) && signs_for(
                        (#[trigger] subsets[other]).participants@,
                        session.coordinator_user_id,
                        players,
                        outcomes[o],
                    );
                if other < at {
                    assert(subsets[other].subset_id != id);
                } else if at < other {
                    assert(subsets[at].subset_id != id);
                }
            } else {
                assert(is_first_subset(subsets, id, at));
            }
        }
    }
    assert forall|user: Uuid| #[trigger]
        roster.registrations@.contains_key(user) implies registration_agrees(
        session,
        expected_contexts,
        user,
        roster.registrations@[user],
    ) == {
        let context = roster.registrations@[user];
        &&& session.user_enclave_assignments@.contains_key(user)
        &&& session.user_enclave_assignments@[user] == context.enclave_id
        &&& !context.require_signing_approval
        &&& user == session.coordinator_user_id || (expected_contexts.contains_key(user)
            && expected_contexts[user]@ == context@)
    } by {}
}

/// The subset is the first with the id.
pub open spec fn is_first_subset(subsets: Seq<SubsetDefinition>, id: Uuid, at: int) -> bool {
    &&& 0 <= at < subsets.len()
    &&& subsets[at].subset_id == id
    &&& forall|i: int| 0 <= i < at ==> (#[trigger] subsets[i]).subset_id != id
}

/// The first subset under the outcome's id is the coordinator and the outcome's winners.
pub open spec fn has_subset(
    ids: Map<usize, Uuid>,
    subsets: Seq<SubsetDefinition>,
    coordinator: Uuid,
    players: Seq<Uuid>,
    outcome: usize,
    winners: Seq<usize>,
) -> bool {
    &&& ids.contains_key(outcome)
    &&& exists|at: int|
        is_first_subset(subsets, ids[outcome], at) && signs_for(
            (#[trigger] subsets[at]).participants@,
            coordinator,
            players,
            winners,
        )
}

/// The key that has to have signed a roster is that of the enclave which the session assigned to the
/// coordinator.
pub proof fn rosters_are_signed_by_the_coordinators_enclave(session: KeygenSession)
    ensures
        ({
            let assigned = session.user_enclave_assignments@;
            let keys = session.recipient_public_keys@;
            let own = session.coordinator_user_id;
            &&& roster_key_of(session) is Ok == (assigned.contains_key(own) && keys.contains_key(
                assigned[own],
            ))
            &&& roster_key_of(session) matches Ok(key) ==> key == keys[assigned[own]]@
        }),
{
}

/// Every entry whose key is in hexadecimal and that was registered is expected, each under its ticket
/// with the key and the context of the last entry that was made with it, beside the coordinator; and
/// nobody else is. One entry that is not makes it fail.
pub proof fn expected_rosters_are_the_entries(
    entries: Seq<UserEntry>,
    coordinator: Uuid,
    coordinator_key: Seq<u8>,
)
    ensures
        ({
            let expected = expected_of(entries, coordinator, coordinator_key);
            &&& expected is Ok == (forall|i: int|
                0 <= i < entries.len() ==> is_hex((#[trigger] entries[i]).ephemeral_pubkey@)
                    && entries[i].keymeld_registration_context is Some)
            &&& expected matches Ok((keys, contexts)) ==> {
                &&& forall|id: Uuid| #[trigger]
                    keys.contains_key(id) <==> id == coordinator || contexts.contains_key(id)
                &&& forall|id: Uuid| #[trigger]
                    contexts.contains_key(id) <==> exists|i: int|
                        0 <= i < entries.len() && (#[trigger] entries[i]).ticket_id == id
                &&& !contexts.contains_key(coordinator) ==> keys[coordinator] == coordinator_key
                &&& forall|i: int|
                    0 <= i < entries.len() && (forall|j: int|
                        i < j < entries.len() ==> (#[trigger] entries[j]).ticket_id
                            != entries[i].ticket_id) ==> keys[(
                    #[trigger] entries[i]).ticket_id] == hex_bytes(entries[i].ephemeral_pubkey@)
                        && Some(contexts[entries[i].ticket_id])
                        == entries[i].keymeld_registration_context
            }
        }),
    decreases entries.len(),
{
    if entries.len() > 0 {
        let fewer = entries.drop_last();
        let last = entries.len() - 1;
        expected_rosters_are_the_entries(fewer, coordinator, coordinator_key);
        assert forall|i: int| 0 <= i < last implies #[trigger] fewer[i] == entries[i] by {}
        assert(entries[last] == entries.last());
        if expected_of(fewer, coordinator, coordinator_key) is Err {
            let i = choose|i: int|
                0 <= i < fewer.len() && !(is_hex((#[trigger] fewer[i]).ephemeral_pubkey@)
                    && fewer[i].keymeld_registration_context is Some);
            assert(fewer[i] == entries[i]);
        } else {
            assert forall|i: int| 0 <= i < last implies is_hex(
                (#[trigger] entries[i]).ephemeral_pubkey@,
            ) && entries[i].keymeld_registration_context is Some by {
                assert(fewer[i] == entries[i]);
            }
        }
        if let Ok((keys, contexts)) = expected_of(entries, coordinator, coordinator_key) {
            let earlier = expected_of(fewer, coordinator, coordinator_key)->Ok_0;
            assert forall|id: Uuid| #[trigger] contexts.contains_key(id) <==> exists|i: int|
                0 <= i < entries.len() && (#[trigger] entries[i]).ticket_id == id by {
                if contexts.contains_key(id) && id != entries[last].ticket_id {
                    assert(earlier.1.contains_key(id));
                    let i = choose|i: int|
                        0 <= i < fewer.len() && (#[trigger] fewer[i]).ticket_id == id;
                    assert(entries[i].ticket_id == id);
                }
                if exists|i: int| 0 <= i < entries.len() && (#[trigger] entries[i]).ticket_id == id {
                    let i = choose|i: int|
                        0 <= i < entries.len() && (#[trigger] entries[i]).ticket_id == id;
                    if i < last {
                        assert(fewer[i].ticket_id == id);
                        assert(earlier.1.contains_key(id));
                    }
                }
            }
            assert forall|id: Uuid| #[trigger] keys.contains_key(id) <==> id == coordinator
                || contexts.contains_key(id) by {
                assert(earlier.0.contains_key(id) == (id == coordinator
                    || earlier.1.contains_key(id)));
            }
            assert forall|i: int|
                0 <= i < entries.len() && (forall|j: int|
                    i < j < entries.len() ==> (#[trigger] entries[j]).ticket_id
                        != entries[i].ticket_id) implies keys[(#[trigger] entries[i]).ticket_id]
                == hex_bytes(entries[i].ephemeral_pubkey@) && Some(contexts[entries[i].ticket_id])
                == entries[i].keymeld_registration_context by {
                if i < last {
                    assert(entries[last].ticket_id != entries[i].ticket_id);
                    assert(fewer[i] == entries[i]);
                    assert forall|j: int| i < j < fewer.len() implies (#[trigger] fewer[j]).ticket_id
                        != fewer[i].ticket_id by {
                        assert(entries[j].ticket_id != entries[i].ticket_id);
                    }
                }
            }
        }
    }
}

/// The entry has an accepted policy, a context, and a consent that agrees with both.
pub open spec fn has_consented(consent: EntryConsent) -> bool {
    &&& consent.has_policy
    &&& consent.context is Some
    &&& consent.consent_digest is Some
    &&& consent.consent_agrees
}

/// Every entry that is bound has consented, and stands under a ticket of its own for exactly what was
/// consented to: the enclave and its key, and the policy. One that has not, or whose ticket comes
/// twice, makes it fail.
pub proof fn participants_have_consented(consents: Seq<EntryConsent>)
    ensures
        participants_of(consents) is Ok == ((forall|i: int|
            0 <= i < consents.len() ==> has_consented(#[trigger] consents[i])) && (forall|
            i: int,
            j: int,
        |
            0 <= i < j < consents.len() ==> (#[trigger] consents[i]).ticket_id != (
            #[trigger] consents[j]).ticket_id)),
        participants_of(consents) matches Ok(participants) ==> participants.len() == consents.len()
            && forall|i: int|
            0 <= i < consents.len() ==> {
                let participant = #[trigger] participants[i];
                let context = consents[i].context->0;
                &&& participant.user_id == consents[i].ticket_id
                &&& participant.enclave_id == context.enclave_id
                &&& participant.enclave_key_epoch == context.enclave_key_epoch
                &&& participant.policy_digest == (consents[i].consent_digest->0)@
            },
    decreases consents.len(),
{
    if consents.len() > 0 {
        let fewer = consents.drop_last();
        let last = consents.len() - 1;
        participants_have_consented(fewer);
        assert forall|i: int| 0 <= i < last implies #[trigger] fewer[i] == consents[i] by {}
        assert(consents[last] == consents.last());
        if participants_of(fewer) is Err {
            if forall|i: int| 0 <= i < fewer.len() ==> has_consented(#[trigger] fewer[i]) {
                let (i, j) = choose|i: int, j: int|
                    0 <= i < j < fewer.len() && (#[trigger] fewer[i]).ticket_id == (
                    #[trigger] fewer[j]).ticket_id;
                assert(fewer[i] == consents[i] && fewer[j] == consents[j]);
                assert(consents[i].ticket_id == consents[j].ticket_id);
            } else {
                let i = choose|i: int| 0 <= i < fewer.len() && !has_consented(#[trigger] fewer[i]);
                assert(fewer[i] == consents[i]);
            }
        } else {
            let earlier = participants_of(fewer)->Ok_0;
            assert forall|i: int| 0 <= i < last implies has_consented(#[trigger] consents[i]) by {
                assert(has_consented(fewer[i]));
            }
            assert forall|i: int, j: int| 0 <= i < j < last implies (
            #[trigger] consents[i]).ticket_id != (#[trigger] consents[j]).ticket_id by {
                assert(fewer[i].ticket_id != fewer[j].ticket_id);
            }
            if takes_part(earlier, consents[last].ticket_id) {
                let i = choose|i: int|
                    0 <= i < earlier.len() && (#[trigger] earlier[i]).user_id
                        == consents[last].ticket_id;
                assert(fewer[i] == consents[i]);
                assert(consents[i].ticket_id == consents[last].ticket_id);
            } else {
                assert forall|i: int| 0 <= i < last implies (#[trigger] consents[i]).ticket_id
                    != consents[last].ticket_id by {
                    assert(fewer[i] == consents[i]);
                    assert(earlier[i].user_id == fewer[i].ticket_id);
                }
            }
            if let Ok(participants) = participants_of(consents) {
                assert forall|i: int| 0 <= i < last implies #[trigger] participants[i]
                    == earlier[i] && fewer[i] == consents[i] by {}
            }
        }
    }
}

/// The first participant with an id has it, and no earlier one has.
proof fn participant_is_first(participants: Seq<ParticipantView>, user_id: Uuid, from: int)
    requires
        0 <= from,
    ensures
        match participant_with(participants, user_id, from) {
            Some(at) => from <= at < participants.len() && participants[at].user_id == user_id
                && forall|i: int|
                from <= i < at ==> (#[trigger] participants[i]).user_id != user_id,
            None => forall|i: int|
                from <= i < participants.len() ==> (#[trigger] participants[i]).user_id != user_id,
        },
    decreases participants.len() - from,
{
    if from < participants.len() {
        participant_is_first(participants, user_id, from + 1);
    }
}

/// The binding at `at` is signed, by the pinned key of its participant's enclave, for exactly the
/// session, the enclave, the policies and the contract; and no earlier one is the same participant's.
pub open spec fn binds(
    bindings: Seq<ContractBinding>,
    at: int,
    participants: Seq<ParticipantView>,
    session: KeygenSession,
    terms: BindingTerms,
) -> bool {
    let binding = bindings[at];
    &&& binding.signature_holds
    &&& binding.keygen_session_id@ == terms.keygen_session_id@
    &&& binding.policy_set_digest@ == terms.policy_set_digest@
    &&& binding.contract_digest@ == terms.contract_digest@
    &&& forall|i: int| 0 <= i < at ==> (#[trigger] bindings[i]).user_id != binding.user_id
    &&& exists|p: int|
        0 <= p < participants.len() && (#[trigger] participants[p]).user_id == binding.user_id
            && participants[p].enclave_id == binding.enclave_id && participants[p].enclave_key_epoch
            == binding.enclave_key_epoch && participants[p].policy_digest == binding.policy_digest@
            && session.recipient_public_keys@.contains_key(binding.enclave_id)
}

/// A contract is bound exactly if there is a binding, every binding binds, and every participant has
/// one.
pub proof fn contracts_are_bound_by_every_participant(
    bindings: Seq<ContractBinding>,
    participants: Seq<ParticipantView>,
    session: KeygenSession,
    terms: BindingTerms,
)
    requires
        forall|i: int, j: int|
            0 <= i < j < participants.len() ==> (#[trigger] participants[i]).user_id != (
            #[trigger] participants[j]).user_id,
    ensures
        bindings_fault(bindings, participants, session, terms) is None == {
            &&& bindings.len() > 0
            &&& forall|at: int|
                0 <= at < bindings.len() ==> #[trigger] binds(
                    bindings,
                    at,
                    participants,
                    session,
                    terms,
                )
            &&& forall|p: int|
                0 <= p < participants.len() ==> exists|i: int|
                    0 <= i < bindings.len() && (#[trigger] bindings[i]).user_id == (
                    #[trigger] participants[p]).user_id
        },
{
    faultless_bindings(bindings, participants, session, terms, 0);
    assert forall|at: int| 0 <= at < bindings.len() implies #[trigger] binds(
        bindings,
        at,
        participants,
        session,
        terms,
    ) == (binding_fault(bindings, at, participants, session, terms) is None) by {
        let binding = bindings[at];
        participant_is_first(participants, binding.user_id, 0);
        if let Some(p) = participant_with(participants, binding.user_id, 0) {
            assert forall|q: int|
                0 <= q < participants.len() && (#[trigger] participants[q]).user_id
                    == binding.user_id implies q == p by {
                if p < q {
                    assert(participants[p].user_id != participants[q].user_id);
                }
            }
            assert(participants[p].user_id == binding.user_id);
        }
        assert(bound_before(bindings, at) == !(forall|i: int|
            0 <= i < at ==> (#[trigger] bindings[i]).user_id != binding.user_id));
    }
    let all_bind = forall|at: int|
        0 <= at < bindings.len() ==> #[trigger] binds(bindings, at, participants, session, terms);
    assert(all_bind == (first_fault(bindings, 0, participants, session, terms) is None)) by {
        if all_bind {
            assert forall|at: int| 0 <= at < bindings.len() implies #[trigger] binding_fault(
                bindings,
                at,
                participants,
                session,
                terms,
            ) is None by {
                assert(binds(bindings, at, participants, session, terms));
            }
        } else {
            let at = choose|at: int|
                0 <= at < bindings.len() && !#[trigger] binds(
                    bindings,
                    at,
                    participants,
                    session,
                    terms,
                );
            assert(binding_fault(bindings, at, participants, session, terms) is Some);
        }
    }
    let all_bound = forall|p: int|
        0 <= p < participants.len() ==> exists|i: int|
            0 <= i < bindings.len() && (#[trigger] bindings[i]).user_id == (
            #[trigger] participants[p]).user_id;
    assert(all_bound == !(exists|p: int|
        0 <= p < participants.len() && !is_bound(bindings, (#[trigger] participants[p]).user_id)));
}

/// No binding has a fault exactly if each has none.
proof fn faultless_bindings(
    bindings: Seq<ContractBinding>,
    participants: Seq<ParticipantView>,
    session: KeygenSession,
    terms: BindingTerms,
    from: int,
)
    requires
        0 <= from,
    ensures
        first_fault(bindings, from, participants, session, terms) is None == (forall|at: int|
            from <= at < bindings.len() ==> #[trigger] binding_fault(
                bindings,
                at,
                participants,
                session,
                terms,
            ) is None),
    decreases bindings.len() - from,
{
    if from < bindings.len() {
        faultless_bindings(bindings, participants, session, terms, from + 1);
        if binding_fault(bindings, from, participants, session, terms) is None {
            assert forall|at: int|
                from <= at < bindings.len() && (forall|later: int|
                    from + 1 <= later < bindings.len() ==> #[trigger] binding_fault(
                        bindings,
                        later,
                        participants,
                        session,
                        terms,
                    ) is None) implies #[trigger] binding_fault(
                bindings,
                at,
                participants,
                session,
                terms,
            ) is None by {}
        }
    }
}

/// The players of a batch are those of the entries, in their order, each under their ticket with the
/// x coordinate of the entry's own key; an entry whose key has none makes it fail.
pub proof fn batches_sign_for_the_entries(entries: Seq<UserEntry>)
    ensures
        players_of(entries) is Ok == (forall|i: int|
            0 <= i < entries.len() ==> x_coordinate((#[trigger] entries[i]).ephemeral_pubkey@)
                is Some),
        players_of(entries) matches Ok(players) ==> players.len() == entries.len() && forall|i: int|
            0 <= i < entries.len() ==> Some((#[trigger] players[i]).0) == x_coordinate(
                entries[i].ephemeral_pubkey@,
            ) && players[i].1 == entries[i].ticket_id,
    decreases entries.len(),
{
    if entries.len() > 0 {
        let fewer = entries.drop_last();
        let last = entries.len() - 1;
        batches_sign_for_the_entries(fewer);
        assert forall|i: int| 0 <= i < last implies #[trigger] fewer[i] == entries[i] by {}
        assert(entries[last] == entries.last());
        if players_of(fewer) is Ok {
            assert forall|i: int| 0 <= i < last implies x_coordinate(
                (#[trigger] entries[i]).ephemeral_pubkey@,
            ) is Some by {
                assert(fewer[i] == entries[i]);
            }
            if let Ok(players) = players_of(entries) {
                let earlier = players_of(fewer)->Ok_0;
                assert forall|i: int| 0 <= i < last implies #[trigger] players[i] == earlier[i]
                    && fewer[i] == entries[i] by {}
            }
        } else {
            let i = choose|i: int|
                0 <= i < fewer.len() && x_coordinate((#[trigger] fewer[i]).ephemeral_pubkey@)
                    is None;
            assert(fewer[i] == entries[i]);
        }
    }
}

/// The escrow can be spent: its tree is in hexadecimal, and it has a funded output whose amount is
/// known.
pub open spec fn is_spendable(escrow: TicketArkEscrow) -> bool {
    &&& is_hex(escrow.escrow_tap_tree@)
    &&& escrow.vtxo_outpoint is Some
    &&& named_output((escrow.vtxo_outpoint->0)@) is Some
    &&& escrow.vtxo_sats is Some
}

/// The escrows hold together what the parts of them hold, and one what its output is worth.
pub proof fn escrows_add_up(a: Seq<TicketArkEscrow>, b: Seq<TicketArkEscrow>, one: TicketArkEscrow)
    ensures
        escrowed(a + b) == escrowed(a) + escrowed(b),
        one.vtxo_sats matches Some(sats) ==> escrowed(seq![one]) == sats,
        one.vtxo_sats is None ==> escrowed(seq![one]) == 0,
        escrowed(Seq::empty()) == 0,
    decreases b.len(),
{
    assert(seq![one].drop_last() =~= Seq::empty());
    assert(seq![one].last() == one);
    reveal_with_fuel(escrowed, 2);
    if b.len() == 0 {
        assert(a + b =~= a);
    } else {
        escrows_add_up(a, b.drop_last(), one);
        assert((a + b).drop_last() =~= a + b.drop_last());
        assert((a + b).last() == b.last());
    }
}

/// A pool is funded exactly if there are as many escrows as entries, each can be spent, and together
/// they hold the pool at least. Each input is its own escrow's output.
pub proof fn pools_are_funded_by_every_escrow(
    entries: nat,
    escrows: Seq<TicketArkEscrow>,
    funding_value: u64,
)
    ensures
        funding_fault(entries, escrows, funding_value) is None == (escrows.len() == entries
            && escrowed(escrows) >= funding_value && forall|i: int|
            0 <= i < escrows.len() ==> is_spendable(#[trigger] escrows[i])),
        inputs_of(escrows) is Ok == (forall|i: int|
            0 <= i < escrows.len() ==> is_spendable(#[trigger] escrows[i])),
        inputs_of(escrows) matches Ok(inputs) ==> inputs.len() == escrows.len() && forall|i: int|
            0 <= i < escrows.len() ==> {
                let input = #[trigger] inputs[i];
                &&& input.tap_tree == hex_bytes(escrows[i].escrow_tap_tree@)
                &&& Some(input.outpoint) == named_output((escrows[i].vtxo_outpoint->0)@)
                &&& Some(input.amount_sats) == escrows[i].vtxo_sats
            },
    decreases escrows.len(),
{
    if escrows.len() > 0 {
        let fewer = escrows.drop_last();
        let last = escrows.len() - 1;
        pools_are_funded_by_every_escrow(entries, fewer, funding_value);
        assert forall|i: int| 0 <= i < last implies #[trigger] fewer[i] == escrows[i] by {}
        assert(escrows[last] == escrows.last());
        assert(input_of(escrows[last]) is Ok == is_spendable(escrows[last]));
        if inputs_of(fewer) is Ok {
            assert forall|i: int| 0 <= i < last implies is_spendable(#[trigger] escrows[i]) by {
                assert(fewer[i] == escrows[i]);
            }
            if let Ok(inputs) = inputs_of(escrows) {
                let earlier = inputs_of(fewer)->Ok_0;
                assert forall|i: int| 0 <= i < last implies #[trigger] inputs[i] == earlier[i]
                    && fewer[i] == escrows[i] by {}
            }
        } else {
            let i = choose|i: int| 0 <= i < fewer.len() && !is_spendable(#[trigger] fewer[i]);
            assert(fewer[i] == escrows[i]);
        }
    }
}

/// Whoever is found under a key has it, and no later player has.
pub proof fn the_last_holder_counts(players: Seq<(Seq<u8>, Uuid)>, key: Seq<u8>, upto: int)
    requires
        0 <= upto <= players.len(),
    ensures
        match holder_of(players, key, upto) {
            Some(user_id) => exists|i: int|
                0 <= i < upto && #[trigger] players[i] == (key, user_id) && forall|j: int|
                    i < j < upto ==> (#[trigger] players[j]).0 != key,
            None => forall|i: int| 0 <= i < upto ==> (#[trigger] players[i]).0 != key,
        },
    decreases upto,
{
    if upto > 0 {
        the_last_holder_counts(players, key, upto - 1);
        if players[upto - 1].0 == key {
            assert(players[upto - 1] == (key, players[upto - 1].1));
        } else if let Some(user_id) = holder_of(players, key, upto) {
            let i = choose|i: int|
                0 <= i < upto - 1 && #[trigger] players[i] == (key, user_id) && forall|j: int|
                    i < j < upto - 1 ==> (#[trigger] players[j]).0 != key;
            assert(players[i] == (key, user_id));
        }
    }
}

/// A signature is taken for an input exactly if the first that was returned for it has 64 bytes; and it
/// is that one.
pub proof fn signatures_are_the_inputs_own(signed: Seq<InputSignature>, input: usize, from: int)
    requires
        0 <= from,
    ensures
        match signature_of(signed, input, from) {
            Some(signature) => exists|i: int|
                from <= i < signed.len() && (#[trigger] signed[i]).input == input
                    && signed[i].signature@ == signature && forall|j: int|
                    from <= j < i ==> (#[trigger] signed[j]).input != input,
            None => forall|i: int| from <= i < signed.len() ==> (#[trigger] signed[i]).input != input,
        },
        request_fault(signed, input) is None == (signature_of(signed, input, 0) is Some
            && signature_of(signed, input, 0)->0.len() == 64),
    decreases signed.len() - from,
{
    if from < signed.len() {
        signatures_are_the_inputs_own(signed, input, from + 1);
        if signed[from].input == input {
            assert(signed[from].signature@ == signature_of(signed, input, from)->0);
        } else if let Some(signature) = signature_of(signed, input, from) {
            let i = choose|i: int|
                from + 1 <= i < signed.len() && (#[trigger] signed[i]).input == input
                    && signed[i].signature@ == signature && forall|j: int|
                    from + 1 <= j < i ==> (#[trigger] signed[j]).input != input;
            assert(signed[i].input == input);
        }
    }
}

/// Bytes come before others exactly if they are lower at the first place in which they differ, or end
/// there.
pub proof fn the_first_difference_decides(a: Seq<u8>, b: Seq<u8>, at: int)
    requires
        0 <= at <= a.len(),
        at <= b.len(),
        a.take(at) == b.take(at),
        at == a.len() || at == b.len() || a[at] != b[at],
    ensures
        bytes_before(a, b) == (at < b.len() && (at == a.len() || a[at] < b[at])),
    decreases at,
{
    if at > 0 {
        assert(a.take(at)[0] == a[0] && b.take(at)[0] == b[0]);
        assert(a[0] == b[0]);
        let (x, y) = (a.drop_first(), b.drop_first());
        assert(x.take(at - 1) =~= a.take(at).drop_first());
        assert(y.take(at - 1) =~= b.take(at).drop_first());
        the_first_difference_decides(x, y, at - 1);
    }
}

/// Groups are ordered by their keys, and those of one key by their transactions.
pub proof fn groups_go_by_key_and_transaction(
    a: (Seq<u8>, Seq<u8>),
    b: (Seq<u8>, Seq<u8>),
)
    ensures
        a.0 != b.0 ==> group_before(a, b) == bytes_before(a.0, b.0),
        a.0 == b.0 ==> group_before(a, b) == bytes_before(a.1, b.1),
{
}

/// The groups are signed without fault exactly if every request of every group has its signature.
pub proof fn every_request_must_be_signed(
    requests: Seq<SigningRequest>,
    groups: Seq<Seq<usize>>,
    signed: Seq<Vec<InputSignature>>,
    from: int,
)
    requires
        0 <= from <= groups.len(),
    ensures
        crate::kickoff_signing::first_fault(requests, groups, signed, from) is None == (forall|g: int, j: int|
            from <= g < groups.len() && 0 <= j < groups[g].len() ==> request_fault(
                signed[g]@,
                requests[#[trigger] groups[g][j] as int].input_index,
            ) is None),
    decreases groups.len() - from,
{
    if from < groups.len() {
        every_request_must_be_signed(requests, groups, signed, from + 1);
        group_must_be_signed(requests, groups[from], signed[from]@, 0);
        if group_fault(requests, groups[from], signed[from]@, 0) is Some {
            let j = choose|j: int|
                0 <= j < groups[from].len() && request_fault(
                    signed[from]@,
                    requests[#[trigger] groups[from][j] as int].input_index,
                ) is Some;
            assert(request_fault(
                signed[from]@,
                requests[groups[from][j] as int].input_index,
            ) is Some);
        }
    }
}

/// See `every_request_must_be_signed`.
proof fn group_must_be_signed(
    requests: Seq<SigningRequest>,
    group: Seq<usize>,
    signed: Seq<InputSignature>,
    from: int,
)
    requires
        0 <= from <= group.len(),
    ensures
        group_fault(requests, group, signed, from) is None == (forall|j: int|
            from <= j < group.len() ==> request_fault(
                signed,
                requests[#[trigger] group[j] as int].input_index,
            ) is None),
    decreases group.len() - from,
{
    if from < group.len() {
        group_must_be_signed(requests, group, signed, from + 1);
    }
}

/// Every outcome has a subset under an id of its own, which begins with the time: the coordinator and
/// those who win in it sign together.
pub proof fn every_outcome_has_its_signers(
    info: DlcSubsetInfo,
    coordinator: Uuid,
    players: Seq<Uuid>,
    places: nat,
    ids: Seq<Uuid>,
    i: usize,
    j: usize,
)
    requires
        defines_subsets(info, coordinator, players, places, ids),
        are_new_ids(ids),
        i < possible_outcomes(players.len(), places).len(),
        j < possible_outcomes(players.len(), places).len(),
    ensures
        info.definitions@.len() == possible_outcomes(players.len(), places).len(),
        info.outcome_subset_ids@.contains_key(i),
        info.outcome_subset_ids@[i] == info.definitions@[i as int].subset_id,
        info.definitions@[i as int].participants@ == signers(
            coordinator,
            players,
            possible_outcomes(players.len(), places)[i as int],
        ),
        version(info.outcome_subset_ids@[i]) == 7,
        i != j ==> info.outcome_subset_ids@[i] != info.outcome_subset_ids@[j],
{
    assert(ids.len() == possible_outcomes(players.len(), places).len());
    assert(info.definitions@[i as int].subset_id == ids[i as int]);
    assert(info.outcome_subset_ids@[j] == ids[j as int]);
    assert(version(ids[i as int]) == 7);
}

/// Two requests are signed together exactly if they are of one key and one transaction.
pub proof fn requests_are_signed_together_by_key_and_transaction(
    groups: Seq<Seq<usize>>,
    requests: Seq<SigningRequest>,
    g: int,
    h: int,
    i: int,
    j: int,
)
    requires
        groups_requests(groups, requests, requests.len() as int),
        0 <= g < groups.len(),
        0 <= h < groups.len(),
        0 <= i < groups[g].len(),
        0 <= j < groups[h].len(),
    ensures
        (g == h) == (requests[groups[g][i] as int].key@ == requests[groups[h][j] as int].key@
            && requests[groups[g][i] as int].txid@ == requests[groups[h][j] as int].txid@),
{
    let a = requests[groups[g][i] as int];
    let b = requests[groups[h][j] as int];
    let first = requests[groups[g][0] as int];
    let other = requests[groups[h][0] as int];
    assert((a.key@, a.txid@) == (first.key@, first.txid@));
    assert((b.key@, b.txid@) == (other.key@, other.txid@));
    if g < h {
        assert(group_before((first.key@, first.txid@), (other.key@, other.txid@)));
        bytes_are_ordered(first.key@, other.key@);
        bytes_are_ordered(first.txid@, other.txid@);
    } else if h < g {
        assert(group_before((other.key@, other.txid@), (first.key@, first.txid@)));
        bytes_are_ordered(first.key@, other.key@);
        bytes_are_ordered(first.txid@, other.txid@);
    }
}

} // verus!
