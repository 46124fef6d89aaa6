//! Keymeld's part in a competition: which of its participants sign for which outcome, and whether
//! the roster that it accepted is the competition's.

use crate::competition::Uuid;
use crate::encoding::{hex_bytes, hex_decode, is_hex};
use crate::entries::{RegistrationContext, UserEntry};
use crate::ids::{version, IdSource};
use crate::payouts::same_bytes;
use crate::rankings::{
    all_rankings, everyone, falling, generate_ranking_permutations, is_ranking, lists_rankings,
    possible_outcomes, ranking_views, rankings_fit,
};
use std::collections::BTreeMap;
use vstd::prelude::*;
use vstd::std_specs::cmp::OrdSpec;
use vstd::std_specs::iter::IteratorSpec;

verus! {

broadcast use vstd::std_specs::btree::group_btree_axioms;

/// Participants that sign together.
#[derive(Debug)]
pub struct SubsetDefinition {
    pub subset_id: Uuid,
    pub participants: Vec<Uuid>,
}

/// Who signs together for each outcome, and under which id.
#[derive(Debug)]
pub struct DlcSubsetInfo {
    pub definitions: Vec<SubsetDefinition>,
    pub outcome_subset_ids: BTreeMap<usize, Uuid>,
}

/// Who signs for an outcome: the coordinator, and the winners in the order of their places.
pub open spec fn signers(coordinator: Uuid, players: Seq<Uuid>, winners: Seq<usize>) -> Seq<Uuid> {
    seq![coordinator] + winners.map_values(|winner: usize| players[winner as int])
}

/// Who signs for an outcome.
fn subset_participants(coordinator: Uuid, players: &Vec<Uuid>, winners: &Vec<usize>) -> (
    participants: Vec<Uuid>)
    requires
        forall|i: int| 0 <= i < winners@.len() ==> (#[trigger] winners@[i]) < players@.len(),
    ensures
        participants@ == signers(coordinator, players@, winners@),
{
    let mut participants: Vec<Uuid> = Vec::new();
    participants.push(coordinator);
    let mut i: usize = 0;
    while i < winners.len()
        invariant
            i <= winners@.len(),
            forall|j: int| 0 <= j < winners@.len() ==> (#[trigger] winners@[j]) < players@.len(),
            participants@.len() == i + 1,
            participants@[0] == coordinator,
            forall|j: int| 0 <= j < i ==> #[trigger] participants@[j + 1] == players@[winners@[j] as int],
        decreases winners@.len() - i,
    {
        participants.push(players[winners[i]]);
        i = i + 1;
    }
    proof {
        let expected = signers(coordinator, players@, winners@);
        assert forall|j: int| 0 <= j < participants@.len() implies participants@[j]
            == expected[j] by {
            if j > 0 {
                assert(participants@[(j - 1) + 1] == players@[winners@[j - 1] as int]);
            }
        }
        assert(participants@ =~= expected);
    }
    participants
}

/// Every outcome names players only.
proof fn outcomes_name_players(n: nat, k: nat, at: int)
    requires
        lists_rankings(all_rankings(n, k), n, k),
        0 <= at < possible_outcomes(n, k).len(),
        n <= usize::MAX,
    ensures
        forall|i: int|
            0 <= i < possible_outcomes(n, k)[at].len() ==> (#[trigger] possible_outcomes(
                n,
                k,
            )[at][i]) < n,
{
    let outcomes = possible_outcomes(n, k);
    if at < outcomes.len() - 1 {
        assert(outcomes[at] == all_rankings(n, k)[at]);
        assert(is_ranking(all_rankings(n, k)[at], n, k));
    } else {
        assert(outcomes[at] == everyone(n));
    }
}

/// The ids begin with the time, and no two are the same: each comes after those before it.
pub open spec fn are_new_ids(ids: Seq<Uuid>) -> bool {
    &&& forall|i: int| 0 <= i < ids.len() ==> version(#[trigger] ids[i]) == 7
    &&& forall|i: int, j: int| 0 <= i < j < ids.len() ==> (#[trigger] ids[i]) < (#[trigger] ids[j])
}

/// Who signs together for each outcome is told under the ids, in the order of the outcomes.
pub open spec fn defines_subsets(
    info: DlcSubsetInfo,
    coordinator: Uuid,
    players: Seq<Uuid>,
    places: nat,
    ids: Seq<Uuid>,
) -> bool {
    let outcomes = possible_outcomes(players.len(), places);
    &&& ids.len() == outcomes.len()
    &&& info.definitions@.len() == outcomes.len()
    &&& forall|i: int|
        0 <= i < outcomes.len() ==> (#[trigger] info.definitions@[i]).subset_id == ids[i]
            && info.definitions@[i].participants@ == signers(coordinator, players, outcomes[i])
    &&& forall|i: usize| #[trigger] info.outcome_subset_ids@.contains_key(i) == (i < outcomes.len())
    &&& forall|i: usize|
        i < outcomes.len() ==> #[trigger] info.outcome_subset_ids@[i] == ids[i as int]
}

/// Who signs together for each outcome of a competition whose players are counted in the order of
/// `player_user_ids`, under the given ids.
pub fn subset_definitions(
    coordinator_user_id: Uuid,
    player_user_ids: &Vec<Uuid>,
    number_of_places_win: usize,
    ids: &Vec<Uuid>,
) -> (info: DlcSubsetInfo)
    requires
        rankings_fit(player_user_ids@.len(), number_of_places_win as nat),
        ids@.len() == falling(player_user_ids@.len(), number_of_places_win as nat) + 1,
    ensures
        defines_subsets(
            info,
            coordinator_user_id,
            player_user_ids@,
            number_of_places_win as nat,
            ids@,
        ),
{
    let outcomes = generate_ranking_permutations(player_user_ids.len(), number_of_places_win);
    let ghost n = player_user_ids@.len();
    let ghost k = number_of_places_win as nat;
    let mut definitions: Vec<SubsetDefinition> = Vec::new();
    let mut outcome_subset_ids: BTreeMap<usize, Uuid> = BTreeMap::new();
    let mut i: usize = 0;
    while i < outcomes.len()
        invariant
            i <= outcomes@.len(),
            outcomes@.len() == ids@.len(),
            ranking_views(outcomes@) == possible_outcomes(n, k),
            lists_rankings(all_rankings(n, k), n, k),
            n == player_user_ids@.len(),
            n <= usize::MAX,
            definitions@.len() == i,
            forall|j: int|
                0 <= j < i ==> (#[trigger] definitions@[j]).subset_id == ids@[j]
                    && definitions@[j].participants@ == signers(
                    coordinator_user_id,
                    player_user_ids@,
                    possible_outcomes(n, k)[j],
                ),
            forall|j: usize| #[trigger] outcome_subset_ids@.contains_key(j) == (j < i),
            forall|j: usize| j < i ==> #[trigger] outcome_subset_ids@[j] == ids@[j as int],
        decreases outcomes@.len() - i,
    {
        proof {
            outcomes_name_players(n, k, i as int);
            assert(ranking_views(outcomes@)[i as int] == outcomes@[i as int]@);
        }
        let participants = subset_participants(coordinator_user_id, player_user_ids, &outcomes[i]);
        definitions.push(SubsetDefinition { subset_id: ids[i], participants });
        outcome_subset_ids.insert(i, ids[i]);
        i = i + 1;
    }
    assert(possible_outcomes(n, k).len() == outcomes@.len());
    DlcSubsetInfo { definitions, outcome_subset_ids }
}

/// Who signs together for each outcome of a competition whose players are counted in the order of
/// `player_user_ids`, each under a new id of its own. Keymeld has to know them before the players register.
pub fn compute_dlc_subset_definitions(
    coordinator_user_id: Uuid,
    player_user_ids: &Vec<Uuid>,
    number_of_places_win: usize,
) -> (info: DlcSubsetInfo)
    requires
        rankings_fit(player_user_ids@.len(), number_of_places_win as nat),
    ensures
        exists|ids: Seq<Uuid>| #[trigger]
            defines_subsets(
                info,
                coordinator_user_id,
                player_user_ids@,
                number_of_places_win as nat,
                ids,
            ) && are_new_ids(ids),
        forall|i: usize, j: usize|
            info.outcome_subset_ids@.contains_key(i) && info.outcome_subset_ids@.contains_key(j) && i
                != j ==> #[trigger] info.outcome_subset_ids@[i] != #[trigger] info.outcome_subset_ids@[j],
{
    let outcomes: usize = generate_ranking_permutations(
        player_user_ids.len(),
        number_of_places_win,
    ).len();
    let mut source = IdSource::new();
    let mut ids: Vec<Uuid> = Vec::new();
    while ids.len() < outcomes
        invariant
            ids@.len() <= outcomes,
            are_new_ids(ids@),
            source.last() == if ids@.len() == 0 {
                None
            } else {
                Some(ids@.last())
            },
        decreases outcomes - ids@.len(),
    {
        ids.push(source.draw());
    }
    let info = subset_definitions(
        coordinator_user_id,
        player_user_ids,
        number_of_places_win,
        &ids,
    );
    proof {
        assert forall|i: usize, j: usize|
            info.outcome_subset_ids@.contains_key(i) && info.outcome_subset_ids@.contains_key(j) && i
                != j implies #[trigger] info.outcome_subset_ids@[i]
            != #[trigger] info.outcome_subset_ids@[j] by {
            assert(ids@[i as int] != ids@[j as int]);
        }
    }
    info
}

/// Why a roster is not the competition's.
#[derive(Clone, Copy, PartialEq, Eq, Structural, Debug)]
pub enum RosterError {
    /// The coordinator is assigned to no enclave.
    NoEnclave,
    /// The coordinator's enclave has no pinned key.
    NoEnclaveKey,
    /// The roster is not signed by that enclave.
    BadSignature,
    /// A registration is not authorised by the session.
    BadRegistrations,
    /// An aggregate key is not that of its participants.
    BadAggregates,
    /// The participants' keys are not those of the entries, or the key is tweaked.
    ParticipantsDiffer,
    /// A registration is not the one that was accepted with the entry.
    RegistrationDiffers,
    /// There are not as many subsets as outcomes.
    SubsetsDiffer,
    /// The session has no subset for the outcome.
    MissingOutcomeSubset(usize),
    /// The roster has no such subset for the outcome.
    MissingSubset(usize),
    /// Others sign for the outcome than are paid by it.
    SignersDiffer(usize),
    /// The aggregate key is not the one that the session ended with.
    AggregateDiffers,
    /// An entry's key is not in hexadecimal.
    InvalidEntryKey(Uuid),
    /// An accepted entry has no context that it was registered under.
    MissingContext(Uuid),
}

/// What is pinned of a Keymeld session when it is created: which enclave holds whose key, the
/// enclaves' keys, and under which id each outcome is signed. The aggregate key is empty until the
/// players have registered.
#[derive(Debug)]
pub struct KeygenSession {
    pub coordinator_user_id: Uuid,
    pub user_enclave_assignments: BTreeMap<Uuid, u32>,
    pub recipient_public_keys: BTreeMap<u32, Vec<u8>>,
    pub outcome_subset_ids: BTreeMap<usize, Uuid>,
    pub aggregate_key: Vec<u8>,
}

/// The roster that Keymeld accepted: the participants' keys, what each registered under, who signs
/// together, and the key that all of them have together.
#[derive(Debug)]
pub struct ParticipantRoster {
    pub participants: BTreeMap<Uuid, Vec<u8>>,
    pub registrations: BTreeMap<Uuid, RegistrationContext>,
    pub subset_definitions: Vec<SubsetDefinition>,
    pub aggregate_public_key: Vec<u8>,
    /// The key is tweaked before it is used.
    pub tweaked: bool,
}

/// The key that has to have signed the roster: that of the coordinator's enclave.
pub open spec fn roster_key_of(session: KeygenSession) -> Result<Seq<u8>, RosterError> {
    let assigned = session.user_enclave_assignments@;
    if !assigned.contains_key(session.coordinator_user_id) {
        Err(RosterError::NoEnclave)
    } else {
        let enclave = assigned[session.coordinator_user_id];
        if !session.recipient_public_keys@.contains_key(enclave) {
            Err(RosterError::NoEnclaveKey)
        } else {
            Ok(session.recipient_public_keys@[enclave]@)
        }
    }
}

/// The key that has to have signed the roster: that of the coordinator's enclave.
pub fn roster_key(session: &KeygenSession) -> (key: Result<&Vec<u8>, RosterError>)
    ensures
        match roster_key_of(*session) {
            Ok(expected) => key matches Ok(key) && key@ == expected,
            Err(error) => key matches Err(told) && told == error,
        },
{
    match session.user_enclave_assignments.get(&session.coordinator_user_id) {
        None => Err(RosterError::NoEnclave),
        Some(enclave) => match session.recipient_public_keys.get(enclave) {
            None => Err(RosterError::NoEnclaveKey),
            Some(key) => Ok(key),
        },
    }
}

/// What the roster's own signatures have to stand up to: it is signed by the coordinator's enclave,
/// the session authorised each registration, and each aggregate key is that of its participants.
pub fn check_roster_signatures(signed: bool, registrations: bool, aggregates: bool) -> (checked:
    Result<(), RosterError>)
    ensures
        checked == if !signed {
            Err::<(), RosterError>(RosterError::BadSignature)
        } else if !registrations {
            Err::<(), RosterError>(RosterError::BadRegistrations)
        } else if !aggregates {
            Err::<(), RosterError>(RosterError::BadAggregates)
        } else {
            Ok::<(), RosterError>(())
        },
{
    if !signed {
        return Err(RosterError::BadSignature);
    }
    if !registrations {
        return Err(RosterError::BadRegistrations);
    }
    if !aggregates {
        return Err(RosterError::BadAggregates);
    }
    Ok(())
}

/// The ids of a set in ascending order.
pub open spec fn ascending_ids(ids: Seq<Uuid>, set: Set<Uuid>) -> bool {
    &&& forall|i: int, j: int|
        0 <= i < j < ids.len() ==> (#[trigger] ids[i]) < (#[trigger] ids[j])
    &&& forall|id: Uuid| ids.contains(id) <==> #[trigger] set.contains(id)
}

/// The ids of a set, the lowest first.
pub open spec fn sorted_ids(set: Set<Uuid>) -> Seq<Uuid> {
    choose|ids: Seq<Uuid>| ascending_ids(ids, set)
}

/// There is only one ascending sequence of the ids.
pub(crate) proof fn ids_ascend_one_way(ids: Seq<Uuid>, set: Set<Uuid>)
    requires
        ascending_ids(ids, set),
    ensures
        sorted_ids(set) == ids,
{
    let other = sorted_ids(set);
    assert(ascending_ids(other, set));
    assert forall|id: Uuid| ids.contains(id) == other.contains(id) by {
        let within = set.contains(id);
        assert(ids.contains(id) == within);
        assert(other.contains(id) == within);
    }
    ascending_ids_agree(other, ids);
}

/// Two ascending sequences of the same ids are the same.
proof fn ascending_ids_agree(a: Seq<Uuid>, b: Seq<Uuid>)
    requires
        forall|i: int, j: int| 0 <= i < j < a.len() ==> (#[trigger] a[i]) < (#[trigger] a[j]),
        forall|i: int, j: int| 0 <= i < j < b.len() ==> (#[trigger] b[i]) < (#[trigger] b[j]),
        forall|id: Uuid| a.contains(id) == b.contains(id),
    ensures
        a == b,
    decreases a.len(),
{
    if a.len() == 0 {
        if b.len() > 0 {
            assert(b.contains(b[0]));
        }
        assert(a =~= b);
    } else {
        assert(a.contains(a[0]));
        assert(b.contains(a[0]));
        assert(b.contains(b[0]));
        assert(a.contains(b[0]));
        let j = choose|j: int| 0 <= j < b.len() && b[j] == a[0];
        let i = choose|i: int| 0 <= i < a.len() && a[i] == b[0];
        assert(a[0] == b[0]);
        let rest_a = a.drop_first();
        let rest_b = b.drop_first();
        assert forall|id: Uuid| rest_a.contains(id) == rest_b.contains(id) by {
            rest_of_ids(a, id);
            rest_of_ids(b, id);
        }
        ascending_ids_agree(rest_a, rest_b);
        assert(a =~= seq![a[0]] + rest_a);
        assert(b =~= seq![b[0]] + rest_b);
    }
}

/// What ascending ids hold after the first is what they hold but for the first.
proof fn rest_of_ids(a: Seq<Uuid>, id: Uuid)
    requires
        a.len() > 0,
        forall|i: int, j: int| 0 <= i < j < a.len() ==> (#[trigger] a[i]) < (#[trigger] a[j]),
    ensures
        a.drop_first().contains(id) == (a.contains(id) && id != a[0]),
{
    let rest = a.drop_first();
    if rest.contains(id) {
        let i = choose|i: int| 0 <= i < rest.len() && rest[i] == id;
        assert(a[i + 1] == id);
        assert(a[0] < a[i + 1]);
    }
    if a.contains(id) && id != a[0] {
        let i = choose|i: int| 0 <= i < a.len() && a[i] == id;
        assert(rest[i - 1] == id);
    }
}

/// The players among the participants: all but the coordinator, in the order of their ids.
pub open spec fn players_among(participants: Set<Uuid>, coordinator: Uuid) -> Seq<Uuid> {
    sorted_ids(participants.remove(coordinator))
}

/// Ids that a map is walked in ascend.
proof fn increasing_ids_ascend(ids: Seq<Uuid>)
    requires
        vstd::std_specs::btree::increasing_seq(ids),
    ensures
        forall|i: int, j: int| 0 <= i < j < ids.len() ==> (#[trigger] ids[i]) < (#[trigger] ids[j]),
{
    assert forall|i: int, j: int| 0 <= i < j < ids.len() implies (#[trigger] ids[i])
        < (#[trigger] ids[j]) by {
        assert(ids[i].cmp_spec(&ids[j]) is Less);
    }
}

/// The players among the participants: all but the coordinator, in the order of their ids.
fn roster_players(participants: &BTreeMap<Uuid, Vec<u8>>, coordinator: Uuid) -> (players: Vec<Uuid>)
    ensures
        players@ == players_among(participants@.dom(), coordinator),
{
    let mut players: Vec<Uuid> = Vec::new();
    let pairs = participants.iter();
    let ghost all = pairs.remaining();
    let ghost keys = all.map_values(|kv: (&Uuid, &Vec<u8>)| *kv.0);
    proof {
        increasing_ids_ascend(keys);
    }
    for pair in iter: pairs
        invariant
            iter.seq() == all,
            keys == all.map_values(|kv: (&Uuid, &Vec<u8>)| *kv.0),
            forall|i: int, j: int|
                0 <= i < j < keys.len() ==> (#[trigger] keys[i]) < (#[trigger] keys[j]),
            forall|i: int, j: int|
                0 <= i < j < players@.len() ==> (#[trigger] players@[i]) < (#[trigger] players@[j]),
            forall|id: Uuid|
                #[trigger] players@.contains(id) <==> id != coordinator && keys.take(
                    iter.index() as int,
                ).contains(id),
    {
        let ghost at = iter.index() as int;
        let ghost before = players@;
        let id: Uuid = *pair.0;
        assert(id == keys[at]);
        if id != coordinator {
            players.push(id);
        }
        proof {
            assert(keys.take(at + 1) =~= keys.take(at).push(id));
            assert forall|p: Uuid| #[trigger] players@.contains(p) <==> p != coordinator
                && keys.take(at + 1).contains(p) by {
                assert(keys.take(at + 1).contains(p) <==> keys.take(at).contains(p) || p == id) by {
                    if keys.take(at).contains(p) {
                        let i = choose|i: int| 0 <= i < at && keys.take(at)[i] == p;
                        assert(keys.take(at + 1)[i] == p);
                    }
                    assert(keys.take(at + 1)[at] == id);
                }
                if id != coordinator {
                    assert(players@ =~= before.push(id));
                    assert(players@.contains(p) <==> before.contains(p) || p == id) by {
                        if before.contains(p) {
                            let i = choose|i: int| 0 <= i < before.len() && before[i] == p;
                            assert(players@[i] == p);
                        }
                        assert(players@[before.len() as int] == id);
                    }
                }
                assert(before.contains(p) <==> p != coordinator && keys.take(at).contains(p));
            }
            if id != coordinator {
                assert forall|i: int| 0 <= i < before.len() implies (#[trigger] before[i]) < id by {
                    assert(before.contains(before[i]));
                    let k = choose|k: int| 0 <= k < at && keys.take(at)[k] == before[i];
                    assert(keys[k] < keys[at]);
                }
            }
        }
    }
    proof {
        assert(keys.take(keys.len() as int) =~= keys);
        let set = participants@.dom().remove(coordinator);
        assert forall|id: Uuid| players@.contains(id) <==> #[trigger] set.contains(id) by {
            if keys.contains(id) {
                let i = choose|i: int| 0 <= i < keys.len() && keys[i] == id;
                assert(participants@.contains_key(*all[i].0));
            }
            if participants@.contains_key(id) {
                assert(all.contains((&id, &participants@[id])));
                let i = choose|i: int| 0 <= i < all.len() && all[i] == (&id, &participants@[id]);
                assert(keys[i] == id);
            }
        }
        ids_ascend_one_way(players@, set);
    }
    players
}

/// The same participants have the same keys.
pub open spec fn same_keys(a: Map<Uuid, Vec<u8>>, b: Map<Uuid, Vec<u8>>) -> bool {
    &&& a.dom() == b.dom()
    &&& forall|id: Uuid| #[trigger] a.contains_key(id) ==> a[id]@ == b[id]@
}

/// Whether the same participants have the same keys.
fn are_same_keys(a: &BTreeMap<Uuid, Vec<u8>>, b: &BTreeMap<Uuid, Vec<u8>>) -> (same: bool)
    ensures
        same == same_keys(a@, b@),
{
    if a.len() != b.len() {
        return false;
    }
    let pairs = a.iter();
    let ghost all = pairs.remaining();
    for pair in iter: pairs
        invariant
            iter.seq() == all,
            forall|i: int| 0 <= i < all.len() ==> a@.contains_key(*(#[trigger] all[i]).0) && a@[*all[
                i
            ].0] == *all[i].1,
            forall|i: int|
                0 <= i < iter.index() ==> b@.contains_key(*(#[trigger] all[i]).0) && b@[*all[i].0]@
                    == all[i].1@,
    {
        let ghost at = iter.index() as int;
        assert(pair == all[at]);
        match b.get(pair.0) {
            None => {
                assert(a@.contains_key(*all[at].0));
                return false;
            },
            Some(other) => if !same_bytes(pair.1, other) {
                assert(a@.contains_key(*all[at].0));
                return false;
            },
        }
    }
    proof {
        assert forall|id: Uuid| #[trigger] a@.contains_key(id) implies b@.contains_key(id) && a@[id]@
            == b@[id]@ by {
            assert(all.contains((&id, &a@[id])));
            let i = choose|i: int| 0 <= i < all.len() && all[i] == (&id, &a@[id]);
            assert(b@.contains_key(*all[i].0));
        }
        assert(a@.dom().subset_of(b@.dom()));
        vstd::set_lib::lemma_subset_equality(a@.dom(), b@.dom());
    }
    true
}

/// A registration is the one that was accepted: with the enclave that the session assigned, signed
/// for without asking, and for a player what their entry was accepted with.
pub open spec fn registration_agrees(
    session: KeygenSession,
    expected: Map<Uuid, RegistrationContext>,
    user: Uuid,
    context: RegistrationContext,
) -> bool {
    &&& session.user_enclave_assignments@.contains_key(user)
    &&& session.user_enclave_assignments@[user] == context.enclave_id
    &&& !context.require_signing_approval
    &&& user != session.coordinator_user_id ==> expected.contains_key(user) && expected[user]@
        == context@
}

/// Whether every registration is the one that was accepted.
fn registrations_agree(
    session: &KeygenSession,
    registrations: &BTreeMap<Uuid, RegistrationContext>,
    expected: &BTreeMap<Uuid, RegistrationContext>,
) -> (agree: bool)
    ensures
        agree == (forall|user: Uuid| #[trigger]
            registrations@.contains_key(user) ==> registration_agrees(
                *session,
                expected@,
                user,
                registrations@[user],
            )),
{
    let pairs = registrations.iter();
    let ghost all = pairs.remaining();
    for pair in iter: pairs
        invariant
            iter.seq() == all,
            forall|i: int|
                0 <= i < all.len() ==> registrations@.contains_key(*(#[trigger] all[i]).0)
                    && registrations@[*all[i].0] == *all[i].1,
            forall|i: int|
                0 <= i < iter.index() ==> registration_agrees(
                    *session,
                    expected@,
                    *(#[trigger] all[i]).0,
                    *all[i].1,
                ),
    {
        let ghost at = iter.index() as int;
        assert(pair == all[at]);
        let user: Uuid = *pair.0;
        let context = pair.1;
        assert(registrations@.contains_key(user) && registrations@[user] == *context);
        match session.user_enclave_assignments.get(&user) {
            None => {
                return false;
            },
            Some(enclave) => if *enclave != context.enclave_id {
                return false;
            },
        }
        if context.require_signing_approval {
            return false;
        }
        if user != session.coordinator_user_id {
            match expected.get(&user) {
                None => {
                    return false;
                },
                Some(accepted) => if !accepted.is_same(context) {
                    return false;
                },
            }
        }
    }
    proof {
        assert forall|user: Uuid| #[trigger] registrations@.contains_key(user) implies
            registration_agrees(*session, expected@, user, registrations@[user]) by {
            assert(all.contains((&user, &registrations@[user])));
            let i = choose|i: int|
                0 <= i < all.len() && all[i] == (&user, &registrations@[user]);
            assert(*all[i].0 == user);
        }
    }
    true
}

/// The first subset with the id from the `from`th on.
pub open spec fn subset_with(subsets: Seq<SubsetDefinition>, id: Uuid, from: int) -> Option<int>
    decreases subsets.len() - from,
{
    if from < 0 || from >= subsets.len() {
        None
    } else if subsets[from].subset_id == id {
        Some(from)
    } else {
        subset_with(subsets, id, from + 1)
    }
}

/// What is wrong with the subset of one outcome, if anything.
pub open spec fn subset_fault(
    outcome: usize,
    expected: Seq<Uuid>,
    ids: Map<usize, Uuid>,
    subsets: Seq<SubsetDefinition>,
) -> Option<RosterError> {
    if !ids.contains_key(outcome) {
        Some(RosterError::MissingOutcomeSubset(outcome))
    } else {
        match subset_with(subsets, ids[outcome], 0) {
            None => Some(RosterError::MissingSubset(outcome)),
            Some(at) => if subsets[at].participants@ == expected {
                None
            } else {
                Some(RosterError::SignersDiffer(outcome))
            },
        }
    }
}

/// What is wrong with the subset of the first outcome from the `from`th on with which anything is.
pub open spec fn subsets_fault(
    outcomes: Seq<Seq<usize>>,
    session: KeygenSession,
    players: Seq<Uuid>,
    subsets: Seq<SubsetDefinition>,
    from: int,
) -> Option<RosterError>
    decreases outcomes.len() - from,
{
    if from < 0 || from >= outcomes.len() {
        None
    } else {
        let expected = signers(session.coordinator_user_id, players, outcomes[from]);
        match subset_fault(from as usize, expected, session.outcome_subset_ids@, subsets) {
            Some(error) => Some(error),
            None => subsets_fault(outcomes, session, players, subsets, from + 1),
        }
    }
}

/// What is wrong with a roster, if anything.
pub open spec fn roster_fault(
    session: KeygenSession,
    roster: ParticipantRoster,
    expected_keys: Map<Uuid, Vec<u8>>,
    expected_contexts: Map<Uuid, RegistrationContext>,
    places: nat,
) -> Option<RosterError> {
    let players = players_among(expected_keys.dom(), session.coordinator_user_id);
    let outcomes = possible_outcomes(players.len(), places);
    if !same_keys(roster.participants@, expected_keys) || roster.tweaked {
        Some(RosterError::ParticipantsDiffer)
    } else if exists|user: Uuid| #[trigger]
        roster.registrations@.contains_key(user) && !registration_agrees(
            session,
            expected_contexts,
            user,
            roster.registrations@[user],
        ) {
        Some(RosterError::RegistrationDiffers)
    } else if outcomes.len() != session.outcome_subset_ids@.len()
        || roster.subset_definitions@.len() != session.outcome_subset_ids@.len() {
        Some(RosterError::SubsetsDiffer)
    } else {
        match subsets_fault(outcomes, session, players, roster.subset_definitions@, 0) {
            Some(error) => Some(error),
            None => if session.aggregate_key@.len() > 0 && session.aggregate_key@
                != roster.aggregate_public_key@ {
                Some(RosterError::AggregateDiffers)
            } else {
                None
            },
        }
    }
}

/// Whether two lists of ids are the same.
fn are_same_ids(a: &Vec<Uuid>, b: &Vec<Uuid>) -> (same: bool)
    ensures
        same == (a@ == b@),
{
    if a.len() != b.len() {
        return false;
    }
    let mut i: usize = 0;
    while i < a.len()
        invariant
            i <= a@.len(),
            a@.len() == b@.len(),
            forall|j: int| 0 <= j < i ==> a@[j] == b@[j],
        decreases a@.len() - i,
    {
        if a[i] != b[i] {
            return false;
        }
        i = i + 1;
    }
    assert(a@ =~= b@);
    true
}

/// Check the subset of one outcome.
fn check_subset(
    outcome: usize,
    expected: &Vec<Uuid>,
    ids: &BTreeMap<usize, Uuid>,
    subsets: &Vec<SubsetDefinition>,
) -> (checked: Result<(), RosterError>)
    ensures
        match subset_fault(outcome, expected@, ids@, subsets@) {
            Some(error) => checked matches Err(told) && told == error,
            None => checked is Ok,
        },
{
    let id: Uuid = match ids.get(&outcome) {
        None => {
            return Err(RosterError::MissingOutcomeSubset(outcome));
        },
        Some(id) => *id,
    };
    let mut i: usize = 0;
    while i < subsets.len()
        invariant
            i <= subsets@.len(),
            ids@.contains_key(outcome),
            id == ids@[outcome],
            subset_with(subsets@, id, 0) == subset_with(subsets@, id, i as int),
        decreases subsets@.len() - i,
    {
        if subsets[i].subset_id == id {
            return if are_same_ids(&subsets[i].participants, expected) {
                Ok(())
            } else {
                Err(RosterError::SignersDiffer(outcome))
            };
        }
        i = i + 1;
    }
    Err(RosterError::MissingSubset(outcome))
}

/// Check that the roster which Keymeld accepted is the competition's: the participants are those
/// whose entries were accepted, under the keys and contexts of their entries; the coordinator and
/// the winners of an outcome sign for it, and nobody else; and the aggregate key is the one that
/// the session ended with, where it has ended.
pub fn verify_accepted_keymeld_roster(
    session: &KeygenSession,
    roster: &ParticipantRoster,
    expected_keys: &BTreeMap<Uuid, Vec<u8>>,
    expected_contexts: &BTreeMap<Uuid, RegistrationContext>,
    number_of_places_win: usize,
) -> (verified: Result<(), RosterError>)
    requires
        rankings_fit(
            players_among(expected_keys@.dom(), session.coordinator_user_id).len(),
            number_of_places_win as nat,
        ),
    ensures
        match roster_fault(
            *session,
            *roster,
            expected_keys@,
            expected_contexts@,
            number_of_places_win as nat,
        ) {
            Some(error) => verified matches Err(told) && told == error,
            None => verified is Ok,
        },
{
    if !are_same_keys(&roster.participants, expected_keys) || roster.tweaked {
        return Err(RosterError::ParticipantsDiffer);
    }
    if !registrations_agree(session, &roster.registrations, expected_contexts) {
        return Err(RosterError::RegistrationDiffers);
    }
    let players = roster_players(expected_keys, session.coordinator_user_id);
    let ghost n = players@.len();
    let ghost k = number_of_places_win as nat;
    let outcomes = generate_ranking_permutations(players.len(), number_of_places_win);
    let ghost expected_outcomes = possible_outcomes(n, k);
    assert(expected_outcomes.len() == outcomes@.len());
    if outcomes.len() != session.outcome_subset_ids.len() || roster.subset_definitions.len()
        != session.outcome_subset_ids.len() {
        return Err(RosterError::SubsetsDiffer);
    }
    let mut i: usize = 0;
    while i < outcomes.len()
        invariant
            i <= outcomes@.len(),
            n == players@.len(),
            n <= usize::MAX,
            players@ == players_among(expected_keys@.dom(), session.coordinator_user_id),
            k == number_of_places_win as nat,
            expected_outcomes == possible_outcomes(n, k),
            expected_outcomes == ranking_views(outcomes@),
            lists_rankings(all_rankings(n, k), n, k),
            same_keys(roster.participants@, expected_keys@),
            !roster.tweaked,
            forall|user: Uuid| #[trigger]
                roster.registrations@.contains_key(user) ==> registration_agrees(
                    *session,
                    expected_contexts@,
                    user,
                    roster.registrations@[user],
                ),
            expected_outcomes.len() == session.outcome_subset_ids@.len(),
            roster.subset_definitions@.len() == session.outcome_subset_ids@.len(),
            subsets_fault(
                expected_outcomes,
                *session,
                players@,
                roster.subset_definitions@,
                0,
            ) == subsets_fault(
                expected_outcomes,
                *session,
                players@,
                roster.subset_definitions@,
                i as int,
            ),
        decreases outcomes@.len() - i,
    {
        proof {
            outcomes_name_players(n, k, i as int);
            assert(ranking_views(outcomes@)[i as int] == outcomes@[i as int]@);
        }
        let expected = subset_participants(session.coordinator_user_id, &players, &outcomes[i]);
        match check_subset(i, &expected, &session.outcome_subset_ids, &roster.subset_definitions) {
            Ok(_) => {},
            Err(error) => {
                return Err(error);
            },
        }
        i = i + 1;
    }
    if session.aggregate_key.len() > 0 && !same_bytes(
        &session.aggregate_key,
        &roster.aggregate_public_key,
    ) {
        return Err(RosterError::AggregateDiffers);
    }
    Ok(())
}

/// The keys and contexts that the accepted entries stand for, each under its ticket, the latest
/// entry's where several have one; or the first entry that stands for none.
pub open spec fn expected_of(entries: Seq<UserEntry>, coordinator: Uuid, coordinator_key: Seq<u8>) -> Result<
    (Map<Uuid, Seq<u8>>, Map<Uuid, RegistrationContext>),
    RosterError,
>
    decreases entries.len(),
{
    if entries.len() == 0 {
        Ok((Map::empty().insert(coordinator, coordinator_key), Map::empty()))
    } else {
        let last = entries.last();
        match expected_of(entries.drop_last(), coordinator, coordinator_key) {
            Err(error) => Err(error),
            Ok((keys, contexts)) => if !is_hex(last.ephemeral_pubkey@) {
                Err(RosterError::InvalidEntryKey(last.id))
            } else {
                match last.keymeld_registration_context {
                    None => Err(RosterError::MissingContext(last.id)),
                    Some(context) => Ok(
                        (
                            keys.insert(last.ticket_id, hex_bytes(last.ephemeral_pubkey@)),
                            contexts.insert(last.ticket_id, context),
                        ),
                    ),
                }
            },
        }
    }
}

/// The first error stays the first, whatever entries follow.
proof fn expected_fault_is_final(
    entries: Seq<UserEntry>,
    coordinator: Uuid,
    coordinator_key: Seq<u8>,
    upto: int,
)
    requires
        0 <= upto <= entries.len(),
        expected_of(entries.take(upto), coordinator, coordinator_key) is Err,
    ensures
        expected_of(entries, coordinator, coordinator_key) == expected_of(
            entries.take(upto),
            coordinator,
            coordinator_key,
        ),
    decreases entries.len() - upto,
{
    if upto < entries.len() {
        assert(entries.take(upto + 1).drop_last() =~= entries.take(upto));
        expected_fault_is_final(entries, coordinator, coordinator_key, upto + 1);
    } else {
        assert(entries.take(upto) =~= entries);
    }
}

/// The keys by participant, with the keys as sequences of bytes.
pub open spec fn keys_view(keys: Map<Uuid, Vec<u8>>) -> Map<Uuid, Seq<u8>> {
    keys.map_values(|key: Vec<u8>| key@)
}

/// The keys and contexts that Keymeld's roster has to have, by participant: the coordinator's key,
/// and for each accepted entry its key and context, under its ticket.
pub fn expected_roster(entries: &Vec<UserEntry>, coordinator: Uuid, coordinator_key: Vec<u8>) -> (
    expected: Result<(BTreeMap<Uuid, Vec<u8>>, BTreeMap<Uuid, RegistrationContext>), RosterError>)
    ensures
        match expected_of(entries@, coordinator, coordinator_key@) {
            Ok((keys, contexts)) => expected matches Ok(found) && keys_view(found.0@) == keys
                && found.1@ == contexts,
            Err(error) => expected matches Err(told) && told == error,
        },
{
    let ghost own = coordinator_key@;
    let mut keys: BTreeMap<Uuid, Vec<u8>> = BTreeMap::new();
    let mut contexts: BTreeMap<Uuid, RegistrationContext> = BTreeMap::new();
    keys.insert(coordinator, coordinator_key);
    assert(entries@.take(0) =~= Seq::empty());
    assert(keys_view(keys@) =~= Map::empty().insert(coordinator, own));
    assert(contexts@ =~= Map::empty());
    let mut i: usize = 0;
    while i < entries.len()
        invariant
            i <= entries@.len(),
            own == coordinator_key@,
            expected_of(entries@.take(i as int), coordinator, own) == Ok::<
                (Map<Uuid, Seq<u8>>, Map<Uuid, RegistrationContext>),
                RosterError,
            >((keys_view(keys@), contexts@)),
        decreases entries@.len() - i,
    {
        assert(entries@.take(i + 1).drop_last() =~= entries@.take(i as int));
        let entry = &entries[i];
        let key = match hex_decode(entry.ephemeral_pubkey.as_str()) {
            Some(key) => key,
            None => {
                proof {
                    expected_fault_is_final(entries@, coordinator, own, i + 1);
                }
                return Err(RosterError::InvalidEntryKey(entry.id));
            },
        };
        let context = match &entry.keymeld_registration_context {
            Some(context) => context.duplicate(),
            None => {
                proof {
                    expected_fault_is_final(entries@, coordinator, own, i + 1);
                }
                return Err(RosterError::MissingContext(entry.id));
            },
        };
        let ghost before = keys@;
        let ghost added = key@;
        keys.insert(entry.ticket_id, key);
        contexts.insert(entry.ticket_id, context);
        assert(keys_view(keys@) =~= keys_view(before).insert(entry.ticket_id, added));
        i = i + 1;
    }
    assert(entries@.take(i as int) =~= entries@);
    Ok((keys, contexts))
}

/// A roster that is accepted pays whom the contract pays: for each outcome, the subset that signs
/// it is the coordinator and the outcome's winners, counted in the order of their tickets.
pub proof fn accepted_rosters_sign_for_the_winners(
    session: KeygenSession,
    roster: ParticipantRoster,
    expected_keys: Map<Uuid, Vec<u8>>,
    expected_contexts: Map<Uuid, RegistrationContext>,
    places: nat,
    outcome: usize,
)
    requires
        roster_fault(session, roster, expected_keys, expected_contexts, places) is None,
        outcome < possible_outcomes(
            players_among(expected_keys.dom(), session.coordinator_user_id).len(),
            places,
        ).len(),
    ensures
        ({
            let players = players_among(expected_keys.dom(), session.coordinator_user_id);
            subset_fault(
                outcome,
                signers(
                    session.coordinator_user_id,
                    players,
                    possible_outcomes(players.len(), places)[outcome as int],
                ),
                session.outcome_subset_ids@,
                roster.subset_definitions@,
            ) is None
        }),
{
    let players = players_among(expected_keys.dom(), session.coordinator_user_id);
    let outcomes = possible_outcomes(players.len(), places);
    no_fault_before(outcomes, session, players, roster.subset_definitions@, 0, outcome as int);
}

/// Where no outcome has a fault, the one at `at` has none.
proof fn no_fault_before(
    outcomes: Seq<Seq<usize>>,
    session: KeygenSession,
    players: Seq<Uuid>,
    subsets: Seq<SubsetDefinition>,
    from: int,
    at: int,
)
    requires
        0 <= from <= at < outcomes.len(),
        at <= usize::MAX,
        subsets_fault(outcomes, session, players, subsets, from) is None,
    ensures
        subset_fault(
            at as usize,
            signers(session.coordinator_user_id, players, outcomes[at]),
            session.outcome_subset_ids@,
            subsets,
        ) is None,
    decreases at - from,
{
    if from < at {
        no_fault_before(outcomes, session, players, subsets, from + 1, at);
    }
}

} // verus!
