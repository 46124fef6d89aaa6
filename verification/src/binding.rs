//! Binding a contract for automatic payouts: each participant's enclave vouches that it will release
//! that participant's secrets for this contract only.

use crate::competition::Uuid;
use crate::entries::RegistrationContext;
use crate::roster::KeygenSession;
use vstd::prelude::*;

verus! {

broadcast use vstd::std_specs::btree::group_btree_axioms;

/// Why a contract is not bound.
#[derive(Clone, Copy, PartialEq, Eq, Structural, Debug)]
pub enum BindingError {
    /// The entry has no policy that was accepted.
    NoPolicy(Uuid),
    /// The entry has no context that it was registered under.
    NoContext(Uuid),
    /// The player has not signed that their key may be held.
    NoConsent(Uuid),
    /// What the player signed is not for the policy and the context.
    WrongConsent(Uuid),
    /// Two entries have one ticket.
    Duplicate(Uuid),
    /// The binding is that of nobody who takes part.
    Unexpected(Uuid),
    /// The binding's enclave has no pinned key.
    NoEnclaveKey(u32),
    /// The binding is not signed by that enclave.
    BadSignature(Uuid),
    /// The binding is for something else, or there is another of the participant.
    Differs(Uuid),
    /// Not every participant has a binding.
    Incomplete,
}

/// What an entry brings to the binding: whether a policy of it was accepted, what it was registered
/// under, the digest of what its player signed, and whether that is for the policy and the context.
#[derive(Debug)]
pub struct EntryConsent {
    pub entry_id: Uuid,
    pub ticket_id: Uuid,
    pub has_policy: bool,
    pub context: Option<RegistrationContext>,
    pub consent_digest: Option<String>,
    pub consent_agrees: bool,
}

/// A participant whose binding is expected.
#[derive(Debug)]
pub struct Participant {
    pub user_id: Uuid,
    pub enclave_id: u32,
    pub enclave_key_epoch: u64,
    pub policy_digest: String,
}

/// A participant whose binding is expected, with its text as a sequence.
pub struct ParticipantView {
    pub user_id: Uuid,
    pub enclave_id: u32,
    pub enclave_key_epoch: u64,
    pub policy_digest: Seq<char>,
}

impl View for Participant {
    type V = ParticipantView;

    open spec fn view(&self) -> ParticipantView {
        ParticipantView {
            user_id: self.user_id,
            enclave_id: self.enclave_id,
            enclave_key_epoch: self.enclave_key_epoch,
            policy_digest: self.policy_digest@,
        }
    }
}

/// The participants, with their text as sequences.
pub open spec fn participant_views(participants: Seq<Participant>) -> Seq<ParticipantView> {
    participants.map_values(|participant: Participant| participant@)
}

/// One of the participants has the id.
pub open spec fn takes_part(participants: Seq<ParticipantView>, user_id: Uuid) -> bool {
    exists|i: int| 0 <= i < participants.len() && (#[trigger] participants[i]).user_id == user_id
}

/// The participant that an entry stands for, or why it stands for none.
pub open spec fn participant_of(consent: EntryConsent) -> Result<ParticipantView, BindingError> {
    if !consent.has_policy {
        Err(BindingError::NoPolicy(consent.entry_id))
    } else {
        match consent.context {
            None => Err(BindingError::NoContext(consent.entry_id)),
            Some(context) => match consent.consent_digest {
                None => Err(BindingError::NoConsent(consent.entry_id)),
                Some(digest) => if !consent.consent_agrees {
                    Err(BindingError::WrongConsent(consent.entry_id))
                } else {
                    Ok(
                        ParticipantView {
                            user_id: consent.ticket_id,
                            enclave_id: context.enclave_id,
                            enclave_key_epoch: context.enclave_key_epoch,
                            policy_digest: digest@,
                        },
                    )
                },
            },
        }
    }
}

/// The participants that entries stand for, in order; or the first fault.
pub open spec fn participants_of(consents: Seq<EntryConsent>) -> Result<
    Seq<ParticipantView>,
    BindingError,
>
    decreases consents.len(),
{
    if consents.len() == 0 {
        Ok(Seq::empty())
    } else {
        match participants_of(consents.drop_last()) {
            Err(error) => Err(error),
            Ok(earlier) => match participant_of(consents.last()) {
                Err(error) => Err(error),
                Ok(participant) => if takes_part(earlier, participant.user_id) {
                    Err(BindingError::Duplicate(participant.user_id))
                } else {
                    Ok(earlier.push(participant))
                },
            },
        }
    }
}

/// The first fault stays the first, whatever entries follow.
proof fn participants_fault_is_final(consents: Seq<EntryConsent>, upto: int)
    requires
        0 <= upto <= consents.len(),
        participants_of(consents.take(upto)) is Err,
    ensures
        participants_of(consents) == participants_of(consents.take(upto)),
    decreases consents.len() - upto,
{
    if upto < consents.len() {
        assert(consents.take(upto + 1).drop_last() =~= consents.take(upto));
        participants_fault_is_final(consents, upto + 1);
    } else {
        assert(consents.take(upto) =~= consents);
    }
}

/// The participant that an entry stands for.
fn make_participant(consent: &EntryConsent) -> (made: Result<Participant, BindingError>)
    ensures
        match participant_of(*consent) {
            Ok(expected) => made matches Ok(participant) && participant@ == expected,
            Err(error) => made matches Err(told) && told == error,
        },
{
    if !consent.has_policy {
        return Err(BindingError::NoPolicy(consent.entry_id));
    }
    let context = match &consent.context {
        Some(context) => context,
        None => {
            return Err(BindingError::NoContext(consent.entry_id));
        },
    };
    let policy_digest = match &consent.consent_digest {
        Some(digest) => digest.clone(),
        None => {
            return Err(BindingError::NoConsent(consent.entry_id));
        },
    };
    if !consent.consent_agrees {
        return Err(BindingError::WrongConsent(consent.entry_id));
    }
    Ok(
        Participant {
            user_id: consent.ticket_id,
            enclave_id: context.enclave_id,
            enclave_key_epoch: context.enclave_key_epoch,
            policy_digest,
        },
    )
}

/// The first participant with the id from the `from`th on.
pub open spec fn participant_with(participants: Seq<ParticipantView>, user_id: Uuid, from: int) -> Option<
    int,
>
    decreases participants.len() - from,
{
    if from < 0 || from >= participants.len() {
        None
    } else if participants[from].user_id == user_id {
        Some(from)
    } else {
        participant_with(participants, user_id, from + 1)
    }
}

/// The first participant with the id.
fn find_participant(participants: &Vec<Participant>, user_id: Uuid) -> (found: Option<usize>)
    ensures
        match participant_with(participant_views(participants@), user_id, 0) {
            Some(at) => found matches Some(found) && found == at && found < participants@.len()
                && participants@[found as int].user_id == user_id,
            None => found is None,
        },
        found is Some == takes_part(participant_views(participants@), user_id),
{
    let ghost views = participant_views(participants@);
    let mut i: usize = 0;
    while i < participants.len()
        invariant
            i <= participants@.len(),
            views == participant_views(participants@),
            participant_with(views, user_id, 0) == participant_with(views, user_id, i as int),
            forall|j: int| 0 <= j < i ==> (#[trigger] views[j]).user_id != user_id,
        decreases participants@.len() - i,
    {
        assert(views[i as int] == participants@[i as int]@);
        if participants[i].user_id == user_id {
            return Some(i);
        }
        i = i + 1;
    }
    None
}

/// The participants whose bindings are expected: one for each entry, under its ticket. Every entry
/// has to have an accepted policy, a context, and its player's consent to both.
pub fn expected_participants(consents: &Vec<EntryConsent>) -> (expected: Result<
    Vec<Participant>,
    BindingError,
>)
    ensures
        match participants_of(consents@) {
            Ok(participants) => expected matches Ok(found) && participant_views(found@)
                == participants,
            Err(error) => expected matches Err(told) && told == error,
        },
{
    let mut participants: Vec<Participant> = Vec::new();
    assert(consents@.take(0) =~= Seq::empty());
    assert(participant_views(participants@) =~= Seq::empty());
    let mut i: usize = 0;
    while i < consents.len()
        invariant
            i <= consents@.len(),
            participants_of(consents@.take(i as int)) == Ok::<Seq<ParticipantView>, BindingError>(
                participant_views(participants@),
            ),
        decreases consents@.len() - i,
    {
        assert(consents@.take(i + 1).drop_last() =~= consents@.take(i as int));
        match make_participant(&consents[i]) {
            Err(error) => {
                proof {
                    participants_fault_is_final(consents@, i + 1);
                }
                return Err(error);
            },
            Ok(participant) => {
                if find_participant(&participants, participant.user_id).is_some() {
                    proof {
                        participants_fault_is_final(consents@, i + 1);
                    }
                    return Err(BindingError::Duplicate(participant.user_id));
                }
                let ghost before = participants@;
                let ghost added = participant@;
                participants.push(participant);
                assert(participant_views(participants@) =~= participant_views(before).push(added));
            },
        }
        i = i + 1;
    }
    assert(consents@.take(i as int) =~= consents@);
    Ok(participants)
}

/// A binding as an enclave returned it.
#[derive(Debug)]
pub struct ContractBinding {
    pub user_id: Uuid,
    pub keygen_session_id: String,
    pub enclave_id: u32,
    pub enclave_key_epoch: u64,
    pub policy_set_digest: String,
    pub contract_digest: String,
    pub policy_digest: String,
    /// It is signed with the pinned key of the participant's enclave.
    pub signature_holds: bool,
}

/// What every binding has to be for: the session, every participant's policy, and the contract.
#[derive(Debug)]
pub struct BindingTerms {
    pub keygen_session_id: String,
    pub policy_set_digest: String,
    pub contract_digest: String,
}

/// The binding is the participant's, for the terms.
pub open spec fn binding_agrees(
    binding: ContractBinding,
    participant: ParticipantView,
    terms: BindingTerms,
) -> bool {
    &&& binding.keygen_session_id@ == terms.keygen_session_id@
    &&& binding.enclave_id == participant.enclave_id
    &&& binding.enclave_key_epoch == participant.enclave_key_epoch
    &&& binding.policy_set_digest@ == terms.policy_set_digest@
    &&& binding.contract_digest@ == terms.contract_digest@
    &&& binding.policy_digest@ == participant.policy_digest
}

/// An earlier binding is the same participant's.
pub open spec fn bound_before(bindings: Seq<ContractBinding>, at: int) -> bool {
    exists|i: int| 0 <= i < at && (#[trigger] bindings[i]).user_id == bindings[at].user_id
}

/// What is wrong with the binding at `at`, if anything.
pub open spec fn binding_fault(
    bindings: Seq<ContractBinding>,
    at: int,
    participants: Seq<ParticipantView>,
    session: KeygenSession,
    terms: BindingTerms,
) -> Option<BindingError> {
    let binding = bindings[at];
    match participant_with(participants, binding.user_id, 0) {
        None => Some(BindingError::Unexpected(binding.user_id)),
        Some(p) => if !session.recipient_public_keys@.contains_key(participants[p].enclave_id) {
            Some(BindingError::NoEnclaveKey(participants[p].enclave_id))
        } else if !binding.signature_holds {
            Some(BindingError::BadSignature(binding.user_id))
        } else if bound_before(bindings, at) || !binding_agrees(binding, participants[p], terms) {
            Some(BindingError::Differs(binding.user_id))
        } else {
            None
        },
    }
}

/// What is wrong with the first binding from the `from`th on with which anything is.
pub open spec fn first_fault(
    bindings: Seq<ContractBinding>,
    from: int,
    participants: Seq<ParticipantView>,
    session: KeygenSession,
    terms: BindingTerms,
) -> Option<BindingError>
    decreases bindings.len() - from,
{
    if from < 0 || from >= bindings.len() {
        None
    } else {
        match binding_fault(bindings, from, participants, session, terms) {
            Some(error) => Some(error),
            None => first_fault(bindings, from + 1, participants, session, terms),
        }
    }
}

/// What is wrong with the bindings, if anything.
pub open spec fn bindings_fault(
    bindings: Seq<ContractBinding>,
    participants: Seq<ParticipantView>,
    session: KeygenSession,
    terms: BindingTerms,
) -> Option<BindingError> {
    match first_fault(bindings, 0, participants, session, terms) {
        Some(error) => Some(error),
        None => if bindings.len() == 0 || exists|p: int|
            0 <= p < participants.len() && !is_bound(bindings, (#[trigger] participants[p]).user_id) {
            Some(BindingError::Incomplete)
        } else {
            None
        },
    }
}

/// One of the bindings is the participant's.
pub open spec fn is_bound(bindings: Seq<ContractBinding>, user_id: Uuid) -> bool {
    exists|i: int| 0 <= i < bindings.len() && (#[trigger] bindings[i]).user_id == user_id
}

/// Whether an earlier binding is the same participant's.
fn was_bound_before(bindings: &Vec<ContractBinding>, at: usize) -> (before: bool)
    requires
        at < bindings@.len(),
    ensures
        before == bound_before(bindings@, at as int),
{
    let mut i: usize = 0;
    while i < at
        invariant
            i <= at < bindings@.len(),
            forall|j: int| 0 <= j < i ==> (#[trigger] bindings@[j]).user_id
                != bindings@[at as int].user_id,
        decreases at - i,
    {
        if bindings[i].user_id == bindings[at].user_id {
            return true;
        }
        i = i + 1;
    }
    false
}

/// Check the binding at `at`.
fn check_binding(
    bindings: &Vec<ContractBinding>,
    at: usize,
    participants: &Vec<Participant>,
    session: &KeygenSession,
    terms: &BindingTerms,
) -> (checked: Result<(), BindingError>)
    requires
        at < bindings@.len(),
    ensures
        match binding_fault(
            bindings@,
            at as int,
            participant_views(participants@),
            *session,
            *terms,
        ) {
            Some(error) => checked matches Err(told) && told == error,
            None => checked is Ok,
        },
{
    let binding = &bindings[at];
    let p: usize = match find_participant(participants, binding.user_id) {
        Some(p) => p,
        None => {
            return Err(BindingError::Unexpected(binding.user_id));
        },
    };
    let participant = &participants[p];
    assert(participant_views(participants@)[p as int] == participant@);
    if session.recipient_public_keys.get(&participant.enclave_id).is_none() {
        return Err(BindingError::NoEnclaveKey(participant.enclave_id));
    }
    if !binding.signature_holds {
        return Err(BindingError::BadSignature(binding.user_id));
    }
    if was_bound_before(bindings, at) || binding.keygen_session_id != terms.keygen_session_id
        || binding.enclave_id != participant.enclave_id || binding.enclave_key_epoch
        != participant.enclave_key_epoch || binding.policy_set_digest != terms.policy_set_digest
        || binding.contract_digest != terms.contract_digest || binding.policy_digest
        != participant.policy_digest {
        return Err(BindingError::Differs(binding.user_id));
    }
    Ok(())
}

/// Check the bindings that the enclaves returned: each is an expected participant's, signed by
/// their enclave and for this session, these policies and this contract, no participant has two,
/// and every participant has one.
pub fn bind_automatic_contract(
    bindings: &Vec<ContractBinding>,
    participants: &Vec<Participant>,
    session: &KeygenSession,
    terms: &BindingTerms,
) -> (checked: Result<(), BindingError>)
    ensures
        match bindings_fault(bindings@, participant_views(participants@), *session, *terms) {
            Some(error) => checked matches Err(told) && told == error,
            None => checked is Ok,
        },
{
    let ghost views = participant_views(participants@);
    let mut i: usize = 0;
    while i < bindings.len()
        invariant
            i <= bindings@.len(),
            views == participant_views(participants@),
            first_fault(bindings@, 0, views, *session, *terms) == first_fault(
                bindings@,
                i as int,
                views,
                *session,
                *terms,
            ),
        decreases bindings@.len() - i,
    {
        match check_binding(bindings, i, participants, session, terms) {
            Ok(_) => {},
            Err(error) => {
                return Err(error);
            },
        }
        i = i + 1;
    }
    if bindings.len() == 0 {
        return Err(BindingError::Incomplete);
    }
    let mut p: usize = 0;
    while p < participants.len()
        invariant
            p <= participants@.len(),
            views == participant_views(participants@),
            first_fault(bindings@, 0, views, *session, *terms) is None,
            forall|q: int| 0 <= q < p ==> is_bound(bindings@, (#[trigger] views[q]).user_id),
        decreases participants@.len() - p,
    {
        assert(views[p as int] == participants@[p as int]@);
        if !has_binding(bindings, participants[p].user_id) {
            return Err(BindingError::Incomplete);
        }
        p = p + 1;
    }
    Ok(())
}

/// Whether one of the bindings is the participant's.
fn has_binding(bindings: &Vec<ContractBinding>, user_id: Uuid) -> (bound: bool)
    ensures
        bound == is_bound(bindings@, user_id),
{
    let mut i: usize = 0;
    while i < bindings.len()
        invariant
            i <= bindings@.len(),
            forall|j: int| 0 <= j < i ==> (#[trigger] bindings@[j]).user_id != user_id,
        decreases bindings@.len() - i,
    {
        if bindings[i].user_id == user_id {
            return true;
        }
        i = i + 1;
    }
    false
}

/// Once a contract is bound, each participant has exactly one binding, and it is theirs for this
/// contract.
pub proof fn bound_contracts_bind_everyone_once(
    bindings: Seq<ContractBinding>,
    participants: Seq<ParticipantView>,
    session: KeygenSession,
    terms: BindingTerms,
    p: int,
)
    requires
        bindings_fault(bindings, participants, session, terms) is None,
        0 <= p < participants.len(),
    ensures
        exists|i: int|
            0 <= i < bindings.len() && (#[trigger] bindings[i]).user_id == participants[p].user_id
                && bindings[i].contract_digest@ == terms.contract_digest@
                && bindings[i].signature_holds,
        forall|i: int, j: int|
            0 <= i < j < bindings.len() ==> (#[trigger] bindings[i]).user_id != (
            #[trigger] bindings[j]).user_id,
{
    assert(is_bound(bindings, participants[p].user_id));
    let i = choose|i: int|
        0 <= i < bindings.len() && (#[trigger] bindings[i]).user_id == participants[p].user_id;
    no_binding_fault(bindings, 0, i, participants, session, terms);
    assert forall|a: int, b: int| 0 <= a < b < bindings.len() implies (#[trigger] bindings[a]).user_id
        != (#[trigger] bindings[b]).user_id by {
        no_binding_fault(bindings, 0, b, participants, session, terms);
        assert(!bound_before(bindings, b));
    }
}

/// Where no binding has a fault, the one at `at` has none.
proof fn no_binding_fault(
    bindings: Seq<ContractBinding>,
    from: int,
    at: int,
    participants: Seq<ParticipantView>,
    session: KeygenSession,
    terms: BindingTerms,
)
    requires
        0 <= from <= at < bindings.len(),
        first_fault(bindings, from, participants, session, terms) is None,
    ensures
        binding_fault(bindings, at, participants, session, terms) is None,
    decreases at - from,
{
    if from < at {
        no_binding_fault(bindings, from + 1, at, participants, session, terms);
    }
}

} // verus!
