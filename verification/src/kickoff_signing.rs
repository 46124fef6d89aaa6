//! Having Keymeld sign for every player's escrow in one round: what is asked for together, and where
//! the signatures belong.

use crate::kickoff::KickoffError;
use vstd::prelude::*;

verus! {

/// A signature that the batch asks for: the player's key, the transaction, and its input.
#[derive(Debug)]
pub struct SigningRequest {
    pub key: Vec<u8>,
    pub txid: Vec<u8>,
    pub input_index: usize,
}

/// `a` comes before `b` in the order of their bytes, the first difference deciding.
pub open spec fn bytes_before(a: Seq<u8>, b: Seq<u8>) -> bool
    decreases a.len(),
{
    if b.len() == 0 {
        false
    } else if a.len() == 0 {
        true
    } else if a[0] != b[0] {
        a[0] < b[0]
    } else {
        bytes_before(a.drop_first(), b.drop_first())
    }
}

/// What a request is grouped by: the player's key and the transaction.
pub open spec fn group_key(request: SigningRequest) -> (Seq<u8>, Seq<u8>) {
    (request.key@, request.txid@)
}

/// The one group comes before the other: by the key, and then by the transaction.
pub open spec fn group_before(a: (Seq<u8>, Seq<u8>), b: (Seq<u8>, Seq<u8>)) -> bool {
    if a.0 != b.0 {
        bytes_before(a.0, b.0)
    } else {
        bytes_before(a.1, b.1)
    }
}

/// Of two different byte sequences one comes before the other, and not the other before it.
pub(crate) proof fn bytes_are_ordered(a: Seq<u8>, b: Seq<u8>)
    ensures
        a != b ==> bytes_before(a, b) != bytes_before(b, a),
        a == b ==> !bytes_before(a, b),
    decreases a.len(),
{
    if a.len() > 0 && b.len() > 0 && a[0] == b[0] {
        bytes_are_ordered(a.drop_first(), b.drop_first());
        if a.drop_first() == b.drop_first() {
            assert(a =~= seq![a[0]] + a.drop_first());
            assert(b =~= seq![b[0]] + b.drop_first());
        }
    } else if a.len() == 0 && b.len() == 0 {
        assert(a =~= b);
    }
}

/// What comes before something comes before what that comes before.
proof fn bytes_before_is_transitive(a: Seq<u8>, b: Seq<u8>, c: Seq<u8>)
    requires
        bytes_before(a, b),
        bytes_before(b, c),
    ensures
        bytes_before(a, c),
    decreases a.len(),
{
    if a.len() > 0 && a[0] == b[0] && b[0] == c[0] {
        bytes_before_is_transitive(a.drop_first(), b.drop_first(), c.drop_first());
    }
}

/// What comes before a group comes before the groups that it comes before.
proof fn groups_are_ordered(a: (Seq<u8>, Seq<u8>), b: (Seq<u8>, Seq<u8>), c: (Seq<u8>, Seq<u8>))
    ensures
        a != b ==> group_before(a, b) != group_before(b, a),
        a == b ==> !group_before(a, b),
        group_before(a, b) && group_before(b, c) ==> group_before(a, c),
{
    bytes_are_ordered(a.0, b.0);
    bytes_are_ordered(a.1, b.1);
    bytes_are_ordered(b.0, c.0);
    bytes_are_ordered(a.0, c.0);
    if bytes_before(a.0, b.0) && bytes_before(b.0, c.0) {
        bytes_before_is_transitive(a.0, b.0, c.0);
    }
    if bytes_before(a.1, b.1) && bytes_before(b.1, c.1) {
        bytes_before_is_transitive(a.1, b.1, c.1);
    }
}

/// How two things stand in order.
#[derive(Clone, Copy, PartialEq, Eq, Structural, Debug)]
enum Stands {
    Before,
    Same,
    After,
}

/// How two byte sequences stand in order.
fn stand_bytes(a: &Vec<u8>, b: &Vec<u8>) -> (stands: Stands)
    ensures
        match stands {
            Stands::Before => bytes_before(a@, b@) && a@ != b@,
            Stands::Same => a@ == b@,
            Stands::After => bytes_before(b@, a@) && a@ != b@,
        },
{
    let mut i: usize = 0;
    assert(a@.skip(0) =~= a@);
    assert(b@.skip(0) =~= b@);
    while i < a.len() && i < b.len()
        invariant
            i <= a@.len(),
            i <= b@.len(),
            a@.take(i as int) =~= b@.take(i as int),
            bytes_before(a@, b@) == bytes_before(a@.skip(i as int), b@.skip(i as int)),
            bytes_before(b@, a@) == bytes_before(b@.skip(i as int), a@.skip(i as int)),
        decreases a@.len() - i,
    {
        assert(a@.skip(i as int)[0] == a@[i as int]);
        assert(b@.skip(i as int)[0] == b@[i as int]);
        if a[i] < b[i] {
            return Stands::Before;
        }
        if a[i] > b[i] {
            return Stands::After;
        }
        assert(a@.skip(i as int).drop_first() =~= a@.skip(i + 1));
        assert(b@.skip(i as int).drop_first() =~= b@.skip(i + 1));
        assert(a@.take(i + 1) =~= a@.take(i as int).push(a@[i as int]));
        assert(b@.take(i + 1) =~= b@.take(i as int).push(b@[i as int]));
        i = i + 1;
    }
    if a.len() == b.len() {
        assert(a@ =~= a@.take(i as int));
        assert(b@ =~= b@.take(i as int));
        Stands::Same
    } else if i < b.len() {
        Stands::Before
    } else {
        Stands::After
    }
}

/// Whether the one byte sequence comes before the other.
pub(crate) fn is_before(a: &Vec<u8>, b: &Vec<u8>) -> (before: bool)
    ensures
        before == bytes_before(a@, b@),
{
    proof {
        bytes_are_ordered(a@, b@);
    }
    match stand_bytes(a, b) {
        Stands::Before => true,
        Stands::Same => false,
        Stands::After => false,
    }
}

/// How the groups of two requests stand in order.
fn stand_groups(a: &SigningRequest, b: &SigningRequest) -> (stands: Stands)
    ensures
        match stands {
            Stands::Before => group_before(group_key(*a), group_key(*b)),
            Stands::Same => group_key(*a) == group_key(*b),
            Stands::After => group_before(group_key(*b), group_key(*a)),
        },
{
    match stand_bytes(&a.key, &b.key) {
        Stands::Same => stand_bytes(&a.txid, &b.txid),
        other => other,
    }
}

/// The groups, with the requests in them as sequences.
pub open spec fn group_views(groups: Seq<Vec<usize>>) -> Seq<Seq<usize>> {
    groups.map_values(|group: Vec<usize>| group@)
}

/// The first `upto` requests are in groups: each request in the one of its key and transaction, the
/// requests of a group in order, and the groups in the order of what they are grouped by.
pub open spec fn groups_requests(
    groups: Seq<Seq<usize>>,
    requests: Seq<SigningRequest>,
    upto: int,
) -> bool {
    &&& forall|g: int| 0 <= g < groups.len() ==> (#[trigger] groups[g]).len() > 0
    &&& forall|g: int, j: int|
        0 <= g < groups.len() && 0 <= j < groups[g].len() ==> (#[trigger] groups[g][j]) < upto
            && group_key(requests[groups[g][j] as int]) == group_key(requests[groups[g][0] as int])
    &&& forall|g: int, i: int, j: int|
        0 <= g < groups.len() && 0 <= i < j < groups[g].len() ==> (#[trigger] groups[g][i]) < (
        #[trigger] groups[g][j])
    &&& forall|g: int, h: int|
        0 <= g < h < groups.len() ==> group_before(
            group_key(requests[(#[trigger] groups[g])[0] as int]),
            group_key(requests[(#[trigger] groups[h])[0] as int]),
        )
    &&& forall|i: int| 0 <= i < upto ==> #[trigger] is_grouped(groups, i)
}

/// One of the groups has the request.
pub open spec fn is_grouped(groups: Seq<Seq<usize>>, request: int) -> bool {
    exists|g: int, j: int|
        #![trigger groups[g][j]]
        0 <= g < groups.len() && 0 <= j < groups[g].len() && groups[g][j] == request
}

/// Enter the request at `next` in its group.
fn enter_request(groups: &mut Vec<Vec<usize>>, requests: &Vec<SigningRequest>, next: usize)
    requires
        next < requests@.len(),
        groups_requests(group_views(old(groups)@), requests@, next as int),
    ensures
        groups_requests(group_views(final(groups)@), requests@, next + 1),
{
    let ghost before = group_views(groups@);
    let ghost key = group_key(requests@[next as int]);
    let mut at: usize = 0;
    while at < groups.len()
        invariant
            at <= groups@.len(),
            next < requests@.len(),
            before == group_views(groups@),
            key == group_key(requests@[next as int]),
            groups_requests(before, requests@, next as int),
            *groups == *old(groups),
            forall|g: int|
                0 <= g < at ==> group_before(
                    group_key(requests@[(#[trigger] before[g])[0] as int]),
                    key,
                ),
        decreases groups@.len() - at,
    {
        assert(before[at as int] == groups@[at as int]@);
        assert(before[at as int].len() > 0);
        assert(before[at as int][0] < next);
        let first: usize = groups[at][0];
        match stand_groups(&requests[first], &requests[next]) {
            Stands::Before => {
                at = at + 1;
            },
            Stands::Same => {
                groups[at].push(next);
                proof {
                    let after = group_views(groups@);
                    assert(after =~= before.update(at as int, before[at as int].push(next)));
                    joining_keeps_groups(before, after, requests@, next, at as int);
                }
                return;
            },
            Stands::After => {
                let mut group: Vec<usize> = Vec::new();
                group.push(next);
                groups.insert(at, group);
                proof {
                    let after = group_views(groups@);
                    assert(after =~= before.insert(at as int, seq![next]));
                    opening_keeps_groups(before, after, requests@, next, at as int);
                }
                return;
            },
        }
    }
    let mut group: Vec<usize> = Vec::new();
    group.push(next);
    groups.push(group);
    proof {
        let after = group_views(groups@);
        assert(after =~= before.insert(before.len() as int, seq![next]));
        opening_keeps_groups(before, after, requests@, next, before.len() as int);
    }
}

/// A request that joins the group of its key and transaction leaves the groups in order.
proof fn joining_keeps_groups(
    before: Seq<Seq<usize>>,
    after: Seq<Seq<usize>>,
    requests: Seq<SigningRequest>,
    next: usize,
    at: int,
)
    requires
        groups_requests(before, requests, next as int),
        0 <= at < before.len(),
        group_key(requests[before[at][0] as int]) == group_key(requests[next as int]),
        after == before.update(at, before[at].push(next)),
    ensures
        groups_requests(after, requests, next + 1),
{
    assert forall|g: int| 0 <= g < after.len() implies (#[trigger] after[g]).len() > 0 by {
        assert(before[g].len() > 0);
    }
    assert forall|g: int, j: int|
        0 <= g < after.len() && 0 <= j < after[g].len() implies (#[trigger] after[g][j]) < next + 1
        && group_key(requests[after[g][j] as int]) == group_key(requests[after[g][0] as int]) by {
        assert(before[g].len() > 0);
        if g != at || j < before[g].len() {
            assert(after[g][j] == before[g][j]);
        }
    }
    assert forall|g: int, i: int, j: int|
        0 <= g < after.len() && 0 <= i < j < after[g].len() implies (#[trigger] after[g][i]) < (
    #[trigger] after[g][j]) by {
        if g != at || j < before[g].len() {
            assert(after[g][j] == before[g][j]);
        }
        assert(after[g][i] == before[g][i]);
        assert(before[g][i] < next);
    }
    assert forall|g: int, h: int| 0 <= g < h < after.len() implies group_before(
        group_key(requests[(#[trigger] after[g])[0] as int]),
        group_key(requests[(#[trigger] after[h])[0] as int]),
    ) by {
        assert(before[g].len() > 0);
        assert(before[h].len() > 0);
        assert(after[g][0] == before[g][0]);
        assert(after[h][0] == before[h][0]);
    }
    assert forall|i: int| 0 <= i < next + 1 implies #[trigger] is_grouped(after, i) by {
        if i == next {
            assert(after[at][before[at].len() as int] == next);
        } else {
            assert(is_grouped(before, i));
            let (g, j) = choose|g: int, j: int|
                #![trigger before[g][j]]
                0 <= g < before.len() && 0 <= j < before[g].len() && before[g][j] == i;
            assert(after[g][j] == i);
        }
    }
}

/// A request that opens a group in its place leaves the groups in order.
proof fn opening_keeps_groups(
    before: Seq<Seq<usize>>,
    after: Seq<Seq<usize>>,
    requests: Seq<SigningRequest>,
    next: usize,
    at: int,
)
    requires
        groups_requests(before, requests, next as int),
        0 <= at <= before.len(),
        forall|g: int|
            0 <= g < at ==> group_before(
                group_key(requests[(#[trigger] before[g])[0] as int]),
                group_key(requests[next as int]),
            ),
        at < before.len() ==> group_before(
            group_key(requests[next as int]),
            group_key(requests[before[at][0] as int]),
        ),
        after == before.insert(at, seq![next]),
    ensures
        groups_requests(after, requests, next + 1),
{
    assert forall|g: int| 0 <= g < after.len() && g != at implies #[trigger] after[g] == before[if g
        < at {
        g
    } else {
        g - 1
    }] by {}
    assert(after[at] == seq![next]);
    assert forall|g: int| 0 <= g < after.len() implies (#[trigger] after[g]).len() > 0 by {
        if g != at {
            let from = if g < at {
                g
            } else {
                g - 1
            };
            assert(before[from].len() > 0);
        }
    }
    assert forall|g: int, j: int|
        0 <= g < after.len() && 0 <= j < after[g].len() implies (#[trigger] after[g][j]) < next + 1
        && group_key(requests[after[g][j] as int]) == group_key(requests[after[g][0] as int]) by {
        if g != at {
            let from = if g < at {
                g
            } else {
                g - 1
            };
            assert(after[g][j] == before[from][j]);
            assert(after[g][0] == before[from][0]);
        }
    }
    assert forall|g: int, i: int, j: int|
        0 <= g < after.len() && 0 <= i < j < after[g].len() implies (#[trigger] after[g][i]) < (
    #[trigger] after[g][j]) by {
        if g != at {
            let from = if g < at {
                g
            } else {
                g - 1
            };
            assert(after[g][i] == before[from][i]);
            assert(after[g][j] == before[from][j]);
        }
    }
    assert forall|g: int, h: int| 0 <= g < h < after.len() implies group_before(
        group_key(requests[(#[trigger] after[g])[0] as int]),
        group_key(requests[(#[trigger] after[h])[0] as int]),
    ) by {
        let from_g = if g < at {
            g
        } else {
            g - 1
        };
        let from_h = if h < at {
            h
        } else {
            h - 1
        };
        if g != at {
            assert(after[g] == before[from_g]);
        }
        if h != at {
            assert(after[h] == before[from_h]);
        }
        if g == at && from_h > at {
            assert(group_before(
                group_key(requests[before[at][0] as int]),
                group_key(requests[before[from_h][0] as int]),
            ));
            groups_are_ordered(
                group_key(requests[next as int]),
                group_key(requests[before[at][0] as int]),
                group_key(requests[before[from_h][0] as int]),
            );
        }
    }
    assert forall|i: int| 0 <= i < next + 1 implies #[trigger] is_grouped(after, i) by {
        if i == next {
            assert(after[at][0] == next);
        } else {
            assert(is_grouped(before, i));
            let (g, j) = choose|g: int, j: int|
                #![trigger before[g][j]]
                0 <= g < before.len() && 0 <= j < before[g].len() && before[g][j] == i;
            if g < at {
                assert(after[g][j] == i);
            } else {
                assert(after[g + 1][j] == i);
            }
        }
    }
}

/// What Keymeld is asked for together: the requests of one key and transaction in a group, and the
/// groups in order.
pub fn group_requests(requests: &Vec<SigningRequest>) -> (groups: Vec<Vec<usize>>)
    ensures
        groups_requests(group_views(groups@), requests@, requests@.len() as int),
{
    let mut groups: Vec<Vec<usize>> = Vec::new();
    let mut i: usize = 0;
    while i < requests.len()
        invariant
            i <= requests@.len(),
            groups_requests(group_views(groups@), requests@, i as int),
        decreases requests@.len() - i,
    {
        enter_request(&mut groups, requests, i);
        i = i + 1;
    }
    groups
}

/// Keymeld's signature of an input.
#[derive(Debug)]
pub struct InputSignature {
    pub input: usize,
    pub signature: Vec<u8>,
}

/// The length of a Schnorr signature.
pub const SIGNATURE_LEN: usize = 64;

/// The first signature of the input from the `from`th on.
pub open spec fn signature_of(signed: Seq<InputSignature>, input: usize, from: int) -> Option<Seq<u8>>
    decreases signed.len() - from,
{
    if from < 0 || from >= signed.len() {
        None
    } else if signed[from].input == input {
        Some(signed[from].signature@)
    } else {
        signature_of(signed, input, from + 1)
    }
}

/// What Keymeld returned for a request is a signature, or why not.
pub open spec fn request_fault(signed: Seq<InputSignature>, input: usize) -> Option<KickoffError> {
    match signature_of(signed, input, 0) {
        None => Some(KickoffError::NotSigned(input)),
        Some(signature) => if signature.len() == SIGNATURE_LEN {
            None
        } else {
            Some(KickoffError::InvalidSignature(input))
        },
    }
}

/// The signature that Keymeld returned for a request.
fn take_signature(signed: &Vec<InputSignature>, input: usize) -> (taken: Result<Vec<u8>, KickoffError>)
    ensures
        match request_fault(signed@, input) {
            Some(error) => taken matches Err(told) && told == error,
            None => taken matches Ok(signature) && Some(signature@) == signature_of(
                signed@,
                input,
                0,
            ),
        },
{
    let mut i: usize = 0;
    while i < signed.len()
        invariant
            i <= signed@.len(),
            signature_of(signed@, input, 0) == signature_of(signed@, input, i as int),
        decreases signed@.len() - i,
    {
        if signed[i].input == input {
            if signed[i].signature.len() != SIGNATURE_LEN {
                return Err(KickoffError::InvalidSignature(input));
            }
            let mut signature: Vec<u8> = Vec::new();
            signature.extend_from_slice(signed[i].signature.as_slice());
            assert(signature@ =~= signed@[i as int].signature@);
            return Ok(signature);
        }
        i = i + 1;
    }
    Err(KickoffError::NotSigned(input))
}

/// The group that has the request.
fn find_group(groups: &Vec<Vec<usize>>, request: usize) -> (found: usize)
    requires
        is_grouped(group_views(groups@), request as int),
    ensures
        found < groups@.len(),
        groups@[found as int]@.contains(request),
{
    let ghost views = group_views(groups@);
    let mut g: usize = 0;
    while g < groups.len()
        invariant
            g <= groups@.len(),
            views == group_views(groups@),
            forall|h: int| 0 <= h < g ==> !(#[trigger] views[h]).contains(request),
        decreases groups@.len() - g,
    {
        let mut j: usize = 0;
        let group = &groups[g];
        while j < group.len()
            invariant
                j <= group@.len(),
                g < groups@.len(),
                group@ == groups@[g as int]@,
                forall|k: int| 0 <= k < j ==> group@[k] != request,
            decreases group@.len() - j,
        {
            if group[j] == request {
                assert(groups@[g as int]@[j as int] == request);
                return g;
            }
            j = j + 1;
        }
        assert(views[g as int] == groups@[g as int]@);
        g = g + 1;
    }
    proof {
        let (h, j) = choose|h: int, j: int|
            #![trigger views[h][j]]
            0 <= h < views.len() && 0 <= j < views[h].len() && views[h][j] == request;
        assert(views[h].contains(request));
    }
    0
}

/// The signature is what Keymeld returned for the request's input, with those of its group.
pub open spec fn is_signed_with(
    signature: Seq<u8>,
    request: SigningRequest,
    at: usize,
    groups: Seq<Vec<usize>>,
    signed: Seq<Vec<InputSignature>>,
) -> bool {
    exists|g: int|
        #![trigger groups[g]]
        0 <= g < groups.len() && groups[g]@.contains(at) && request_fault(
            signed[g]@,
            request.input_index,
        ) is None && Some(signature) == signature_of(signed[g]@, request.input_index, 0)
}

/// The first fault among the requests of a group from the `from`th on.
pub open spec fn group_fault(
    requests: Seq<SigningRequest>,
    group: Seq<usize>,
    signed: Seq<InputSignature>,
    from: int,
) -> Option<KickoffError>
    decreases group.len() - from,
{
    if from < 0 || from >= group.len() {
        None
    } else {
        match request_fault(signed, requests[group[from] as int].input_index) {
            Some(error) => Some(error),
            None => group_fault(requests, group, signed, from + 1),
        }
    }
}

/// The first fault among the requests of the groups from the `from`th on: in the order of the
/// groups, and in each of them in the order of its requests.
pub open spec fn first_fault(
    requests: Seq<SigningRequest>,
    groups: Seq<Seq<usize>>,
    signed: Seq<Vec<InputSignature>>,
    from: int,
) -> Option<KickoffError>
    decreases groups.len() - from,
{
    if from < 0 || from >= groups.len() {
        None
    } else {
        match group_fault(requests, groups[from], signed[from]@, 0) {
            Some(error) => Some(error),
            None => first_fault(requests, groups, signed, from + 1),
        }
    }
}

/// Where a group has no fault, none of its requests has.
proof fn faultless_group(
    requests: Seq<SigningRequest>,
    group: Seq<usize>,
    signed: Seq<InputSignature>,
    from: int,
    at: int,
)
    requires
        0 <= from <= at < group.len(),
        group_fault(requests, group, signed, from) is None,
    ensures
        request_fault(signed, requests[group[at] as int].input_index) is None,
    decreases at - from,
{
    if from < at {
        faultless_group(requests, group, signed, from + 1, at);
    }
}

/// Where no request has a fault, none in any of the groups has.
proof fn faultless_groups(
    requests: Seq<SigningRequest>,
    groups: Seq<Seq<usize>>,
    signed: Seq<Vec<InputSignature>>,
    from: int,
    g: int,
    request: usize,
)
    requires
        0 <= from <= g < groups.len(),
        first_fault(requests, groups, signed, from) is None,
        groups[g].contains(request),
    ensures
        request_fault(signed[g]@, requests[request as int].input_index) is None,
    decreases g - from,
{
    if from < g {
        faultless_groups(requests, groups, signed, from + 1, g, request);
    } else {
        let at = choose|at: int| 0 <= at < groups[g].len() && groups[g][at] == request;
        faultless_group(requests, groups[g], signed[g]@, 0, at);
    }
}

/// The first fault among what Keymeld returned for a group.
fn check_group(requests: &Vec<SigningRequest>, group: &Vec<usize>, signed: &Vec<InputSignature>) -> (
fault: Option<KickoffError>)
    requires
        forall|j: int| 0 <= j < group@.len() ==> (#[trigger] group@[j]) < requests@.len(),
    ensures
        fault == group_fault(requests@, group@, signed@, 0),
{
    let mut j: usize = 0;
    while j < group.len()
        invariant
            j <= group@.len(),
            forall|k: int| 0 <= k < group@.len() ==> (#[trigger] group@[k]) < requests@.len(),
            group_fault(requests@, group@, signed@, 0) == group_fault(
                requests@,
                group@,
                signed@,
                j as int,
            ),
        decreases group@.len() - j,
    {
        match take_signature(signed, requests[group[j]].input_index) {
            Ok(_) => {},
            Err(error) => {
                return Some(error);
            },
        }
        j = j + 1;
    }
    None
}

/// The signature of each request: that which Keymeld returned for the request's input, with those of
/// its group. `signed` is what Keymeld returned for each of the groups. The first request that has no
/// signature, in the order of the groups, makes it fail.
pub fn place_signatures(
    requests: &Vec<SigningRequest>,
    groups: &Vec<Vec<usize>>,
    signed: &Vec<Vec<InputSignature>>,
) -> (placed: Result<Vec<Vec<u8>>, KickoffError>)
    requires
        groups_requests(group_views(groups@), requests@, requests@.len() as int),
        signed@.len() == groups@.len(),
    ensures
        match first_fault(requests@, group_views(groups@), signed@, 0) {
            Some(error) => placed matches Err(told) && told == error,
            None => placed matches Ok(signatures) && {
                &&& signatures@.len() == requests@.len()
                &&& forall|i: int|
                    0 <= i < requests@.len() ==> is_signed_with(
                        (#[trigger] signatures@[i])@,
                        requests@[i],
                        i as usize,
                        groups@,
                        signed@,
                    )
            },
        },
{
    let ghost views = group_views(groups@);
    let mut g: usize = 0;
    while g < groups.len()
        invariant
            g <= groups@.len(),
            views == group_views(groups@),
            groups_requests(views, requests@, requests@.len() as int),
            signed@.len() == groups@.len(),
            first_fault(requests@, views, signed@, 0) == first_fault(
                requests@,
                views,
                signed@,
                g as int,
            ),
        decreases groups@.len() - g,
    {
        let group = &groups[g];
        proof {
            assert(views[g as int] == group@);
            assert forall|j: int| 0 <= j < group@.len() implies (#[trigger] group@[j])
                < requests@.len() by {
                assert(views[g as int][j] < requests@.len());
            }
        }
        match check_group(requests, group, &signed[g]) {
            Some(error) => {
                return Err(error);
            },
            None => {},
        }
        g = g + 1;
    }
    let mut signatures: Vec<Vec<u8>> = Vec::new();
    let mut i: usize = 0;
    while i < requests.len()
        invariant
            i <= requests@.len(),
            views == group_views(groups@),
            groups_requests(views, requests@, requests@.len() as int),
            first_fault(requests@, views, signed@, 0) is None,
            signed@.len() == groups@.len(),
            signatures@.len() == i,
            forall|k: int|
                0 <= k < i ==> is_signed_with(
                    (#[trigger] signatures@[k])@,
                    requests@[k],
                    k as usize,
                    groups@,
                    signed@,
                ),
        decreases requests@.len() - i,
    {
        assert(is_grouped(views, i as int));
        let g: usize = find_group(groups, i);
        proof {
            assert(views[g as int] == groups@[g as int]@);
            faultless_groups(requests@, views, signed@, 0, g as int, i);
        }
        match take_signature(&signed[g], requests[i].input_index) {
            Ok(signature) => {
                assert(is_signed_with(
                    signature@,
                    requests@[i as int],
                    i,
                    groups@,
                    signed@,
                ));
                signatures.push(signature);
            },
            Err(error) => {
                return Err(error);
            },
        }
        i = i + 1;
    }
    Ok(signatures)
}

/// A request is in one group only, so there is one signature that it can get.
pub proof fn each_request_is_in_one_group(
    groups: Seq<Seq<usize>>,
    requests: Seq<SigningRequest>,
    g: int,
    h: int,
    request: usize,
)
    requires
        groups_requests(groups, requests, requests.len() as int),
        0 <= g < groups.len(),
        0 <= h < groups.len(),
        groups[g].contains(request),
        groups[h].contains(request),
    ensures
        g == h,
{
    let j = choose|j: int| 0 <= j < groups[g].len() && groups[g][j] == request;
    let k = choose|k: int| 0 <= k < groups[h].len() && groups[h][k] == request;
    let a = group_key(requests[groups[g][0] as int]);
    let b = group_key(requests[groups[h][0] as int]);
    assert(group_key(requests[groups[g][j] as int]) == a);
    assert(group_key(requests[groups[h][k] as int]) == b);
    assert(a == b);
    groups_are_ordered(a, b, a);
    if g < h {
        assert(group_before(a, b));
    } else if h < g {
        assert(group_before(b, a));
    }
}

} // verus!
