//! The ways a competition can be decided: who of the players takes which place.

use itertools::Itertools;
use vstd::prelude::*;

verus! {

/// `n * (n - 1) * ...`, with `k` factors.
pub open spec fn falling(n: nat, k: nat) -> nat
    decreases k,
{
    if k == 0 {
        1
    } else if n == 0 {
        0
    } else {
        n * falling((n - 1) as nat, (k - 1) as nat)
    }
}

/// The rankings of `k` out of `n` players, and what holds them, fit in memory.
pub open spec fn rankings_fit(n: nat, k: nat) -> bool {
    6 * (falling(n, k) + 1) * (usize::BITS as nat / 8) <= isize::MAX
}

/// One ranking: `k` different players out of `n`, the best first.
pub open spec fn is_ranking(ranking: Seq<usize>, n: nat, k: nat) -> bool {
    &&& ranking.len() == k
    &&& forall|i: int| 0 <= i < k ==> (#[trigger] ranking[i]) < n
    &&& forall|i: int, j: int| 0 <= i < j < k ==> #[trigger] ranking[i] != #[trigger] ranking[j]
}

/// The first place in which two rankings differ has a lower player in `a`.
pub open spec fn ranks_before(a: Seq<usize>, b: Seq<usize>) -> bool {
    exists|i: int|
        0 <= i < a.len() && i < b.len() && (#[trigger] a[i]) < b[i] && (forall|j: int|
            0 <= j < i ==> #[trigger] a[j] == b[j])
}

/// `rankings` holds every ranking of `k` out of `n` players once, in ascending order.
pub open spec fn lists_rankings(rankings: Seq<Seq<usize>>, n: nat, k: nat) -> bool {
    &&& forall|i: int| 0 <= i < rankings.len() ==> is_ranking(#[trigger] rankings[i], n, k)
    &&& forall|i: int, j: int|
        0 <= i < j < rankings.len() ==> ranks_before(
            #[trigger] rankings[i],
            #[trigger] rankings[j],
        )
    &&& forall|ranking: Seq<usize>| #[trigger]
        is_ranking(ranking, n, k) ==> rankings.contains(ranking)
}

/// The views of rankings.
pub open spec fn ranking_views(rankings: Seq<Vec<usize>>) -> Seq<Seq<usize>> {
    rankings.map_values(|ranking: Vec<usize>| ranking@)
}

/// Every ranking of `k` out of `n` players, in ascending order.
pub open spec fn all_rankings(n: nat, k: nat) -> Seq<Seq<usize>> {
    choose|rankings: Seq<Seq<usize>>| lists_rankings(rankings, n, k)
}

/// Every player, in order.
pub open spec fn everyone(n: nat) -> Seq<usize> {
    Seq::new(n, |i: int| i as usize)
}

/// The outcomes of a competition with `n` players and `k` places: every ranking, and last that
/// everyone is refunded.
pub open spec fn possible_outcomes(n: nat, k: nat) -> Seq<Seq<usize>> {
    all_rankings(n, k).push(everyone(n))
}

/// Every ranking of `k` out of `n` players, from `itertools::Itertools::permutations` of the range
/// from 0 to `n`. It yields every `k`-permutation once, and of an ascending range in ascending
/// order; there are `falling(n, k)` of them. What does not fit in memory is left out.
#[verifier::external_body]
fn permutations(n: usize, k: usize) -> (rankings: Vec<Vec<usize>>)
    requires
        rankings_fit(n as nat, k as nat),
    ensures
        lists_rankings(ranking_views(rankings@), n as nat, k as nat),
        rankings@.len() == falling(n as nat, k as nat),
{
    (0..n).permutations(k).collect()
}

/// Whether the rankings of `rankings` out of `num_players` players fit in memory.
pub fn do_rankings_fit(num_players: usize, rankings: usize) -> (fit: bool)
    ensures
        fit == rankings_fit(num_players as nat, rankings as nat),
{
    match bounded_falling(num_players, rankings) {
        Some(total) => {
            let count: u128 = 6 * (total as u128 + 1);
            let words: u128 = usize::BITS as u128 / 8;
            assert(count * words <= count * 8) by (nonlinear_arith)
                requires
                    words <= 8,
            ;
            let bytes: u128 = count * words;
            bytes <= isize::MAX as u128
        },
        None => false,
    }
}

/// `falling(n, k)`, where it fits in a word; where it does not, the rankings do not fit in memory.
fn bounded_falling(n: usize, k: usize) -> (total: Option<usize>)
    ensures
        match total {
            Some(total) => total == falling(n as nat, k as nat),
            None => !rankings_fit(n as nat, k as nat),
        },
    decreases k,
{
    if k == 0 {
        Some(1)
    } else if n == 0 {
        Some(0)
    } else {
        match bounded_falling(n - 1, k - 1) {
            Some(rest) => {
                let total = n.checked_mul(rest);
                proof {
                    if total is None {
                        assert(falling(n as nat, k as nat) > usize::MAX);
                        assert(!rankings_fit(n as nat, k as nat)) by {
                            too_many(falling(n as nat, k as nat));
                        }
                    }
                }
                total
            },
            None => {
                proof {
                    assert(falling(n as nat, k as nat) >= falling(
                        (n - 1) as nat,
                        (k - 1) as nat,
                    )) by (nonlinear_arith)
                        requires
                            n >= 1,
                            falling(n as nat, k as nat) == n * falling(
                                (n - 1) as nat,
                                (k - 1) as nat,
                            ),
                    ;
                    let words = usize::BITS as nat / 8;
                    let more = falling(n as nat, k as nat);
                    let fewer = falling((n - 1) as nat, (k - 1) as nat);
                    assert(6 * (more + 1) * words >= 6 * (fewer + 1) * words) by (nonlinear_arith)
                        requires
                            more >= fewer,
                    ;
                }
                None
            },
        }
    }
}

/// More rankings than a word can count do not fit in memory.
proof fn too_many(total: nat)
    requires
        total > usize::MAX,
    ensures
        6 * (total + 1) * (usize::BITS as nat / 8) > isize::MAX,
{
    let words = usize::BITS as nat / 8;
    assert(words >= 4);
    assert(6 * (total + 1) * words >= total) by (nonlinear_arith)
        requires
            words >= 4,
    ;
}

/// The ways a competition of `num_players` can be decided when `rankings` of them win: every
/// ranking, in ascending order, and last that everyone is refunded.
pub fn generate_ranking_permutations(num_players: usize, rankings: usize) -> (outcomes: Vec<
    Vec<usize>,
>)
    requires
        rankings_fit(num_players as nat, rankings as nat),
    ensures
        ranking_views(outcomes@) == possible_outcomes(num_players as nat, rankings as nat),
        lists_rankings(
            all_rankings(num_players as nat, rankings as nat),
            num_players as nat,
            rankings as nat,
        ),
        outcomes@.len() == falling(num_players as nat, rankings as nat) + 1,
{
    let mut outcomes = permutations(num_players, rankings);
    let ghost ranked = ranking_views(outcomes@);
    let mut refunded: Vec<usize> = Vec::new();
    let mut i: usize = 0;
    while i < num_players
        invariant
            i <= num_players,
            refunded@ =~= everyone(i as nat),
        decreases num_players - i,
    {
        refunded.push(i);
        i = i + 1;
    }
    outcomes.push(refunded);
    proof {
        listed_once(ranked, num_players as nat, rankings as nat);
        assert(ranking_views(outcomes@) =~= possible_outcomes(
            num_players as nat,
            rankings as nat,
        ));
    }
    outcomes
}

/// There is only one list of all rankings in ascending order.
pub proof fn listed_once(rankings: Seq<Seq<usize>>, n: nat, k: nat)
    requires
        lists_rankings(rankings, n, k),
    ensures
        all_rankings(n, k) == rankings,
        lists_rankings(all_rankings(n, k), n, k),
{
    let other = all_rankings(n, k);
    assert(lists_rankings(other, n, k));
    assert forall|r: Seq<usize>| rankings.contains(r) == other.contains(r) by {
        if rankings.contains(r) {
            assert(is_ranking(r, n, k));
        }
        if other.contains(r) {
            assert(is_ranking(r, n, k));
        }
    }
    ascending_lists_agree(other, rankings);
}

/// The order of rankings goes one way.
proof fn ranks_one_way(a: Seq<usize>, b: Seq<usize>)
    ensures
        !(ranks_before(a, b) && ranks_before(b, a)),
{
    if ranks_before(a, b) && ranks_before(b, a) {
        let i = choose|i: int|
            0 <= i < a.len() && i < b.len() && (#[trigger] a[i]) < b[i] && (forall|j: int|
                0 <= j < i ==> #[trigger] a[j] == b[j]);
        let m = choose|m: int|
            0 <= m < b.len() && m < a.len() && (#[trigger] b[m]) < a[m] && (forall|j: int|
                0 <= j < m ==> #[trigger] b[j] == a[j]);
        if i < m {
            assert(b[i] == a[i]);
        } else if m < i {
            assert(a[m] == b[m]);
        }
    }
}

/// Two ascending lists of the same rankings are the same.
proof fn ascending_lists_agree(a: Seq<Seq<usize>>, b: Seq<Seq<usize>>)
    requires
        forall|i: int, j: int|
            0 <= i < j < a.len() ==> ranks_before(#[trigger] a[i], #[trigger] a[j]),
        forall|i: int, j: int|
            0 <= i < j < b.len() ==> ranks_before(#[trigger] b[i], #[trigger] b[j]),
        forall|r: Seq<usize>| a.contains(r) == b.contains(r),
    ensures
        a == b,
    decreases a.len(),
{
    if a.len() == 0 {
        if b.len() > 0 {
            assert(b.contains(b[0]));
            assert(a.contains(b[0]));
        }
        assert(a =~= b);
    } else {
        assert(a.contains(a[0]));
        assert(b.contains(a[0]));
        assert(b.contains(b[0]));
        assert(a.contains(b[0]));
        let j = choose|j: int| 0 <= j < b.len() && b[j] == a[0];
        let i = choose|i: int| 0 <= i < a.len() && a[i] == b[0];
        if j > 0 {
            assert(ranks_before(b[0], b[j]));
            if i > 0 {
                assert(ranks_before(a[0], a[i]));
                ranks_one_way(a[0], b[0]);
            } else {
                ranks_one_way(a[0], a[0]);
            }
        }
        assert(a[0] == b[0]);
        let rest_a = a.drop_first();
        let rest_b = b.drop_first();
        assert forall|r: Seq<usize>| rest_a.contains(r) == rest_b.contains(r) by {
            rest_is_later(a, r);
            rest_is_later(b, r);
        }
        ascending_lists_agree(rest_a, rest_b);
        assert(a =~= seq![a[0]] + rest_a);
        assert(b =~= seq![b[0]] + rest_b);
    }
}

/// What an ascending list holds after its first ranking is what it holds but for that ranking.
proof fn rest_is_later(a: Seq<Seq<usize>>, r: Seq<usize>)
    requires
        a.len() > 0,
        forall|i: int, j: int|
            0 <= i < j < a.len() ==> ranks_before(#[trigger] a[i], #[trigger] a[j]),
    ensures
        a.drop_first().contains(r) == (a.contains(r) && r != a[0]),
{
    let rest = a.drop_first();
    if rest.contains(r) {
        let i = choose|i: int| 0 <= i < rest.len() && rest[i] == r;
        assert(a[i + 1] == r);
        assert(ranks_before(a[0], a[i + 1]));
        if r == a[0] {
            ranks_one_way(a[0], a[0]);
        }
    }
    if a.contains(r) && r != a[0] {
        let i = choose|i: int| 0 <= i < a.len() && a[i] == r;
        assert(rest[i - 1] == r);
    }
}

/// `ranking` followed by each player below `upto` that it does not hold, in ascending order.
spec fn extend(ranking: Seq<usize>, upto: int) -> Seq<Seq<usize>>
    decreases upto,
{
    if upto <= 0 {
        Seq::empty()
    } else {
        let fewer = extend(ranking, upto - 1);
        if ranking.contains((upto - 1) as usize) {
            fewer
        } else {
            fewer.push(ranking.push((upto - 1) as usize))
        }
    }
}

/// Each of `rankings`, extended by each of `n` players.
spec fn extend_all(rankings: Seq<Seq<usize>>, n: nat) -> Seq<Seq<usize>>
    decreases rankings.len(),
{
    if rankings.len() == 0 {
        Seq::empty()
    } else {
        extend_all(rankings.drop_last(), n) + extend(rankings.last(), n as int)
    }
}

/// The extensions of a ranking below `upto` are it and one more player, in ascending order.
proof fn extends_in_order(ranking: Seq<usize>, upto: int)
    requires
        0 <= upto <= usize::MAX,
    ensures
        forall|i: int|
            0 <= i < extend(ranking, upto).len() ==> {
                let longer = #[trigger] extend(ranking, upto)[i];
                &&& longer == ranking.push(longer.last())
                &&& longer.len() == ranking.len() + 1
                &&& longer.last() < upto
                &&& !ranking.contains(longer.last())
            },
        forall|i: int, j: int|
            0 <= i < j < extend(ranking, upto).len() ==> (#[trigger] extend(ranking, upto)[i]).last()
                < (#[trigger] extend(ranking, upto)[j]).last(),
        forall|p: usize|
            p < upto && !ranking.contains(p) ==> extend(ranking, upto).contains(
                #[trigger] ranking.push(p),
            ),
    decreases upto,
{
    if upto > 0 {
        extends_in_order(ranking, upto - 1);
        let fewer = extend(ranking, upto - 1);
        let more = extend(ranking, upto);
        assert forall|p: usize| p < upto && !ranking.contains(p) implies more.contains(
            #[trigger] ranking.push(p),
        ) by {
            if p < upto - 1 {
                assert(fewer.contains(ranking.push(p)));
                let i = choose|i: int| 0 <= i < fewer.len() && fewer[i] == ranking.push(p);
                assert(more[i] == ranking.push(p));
            } else {
                assert(more[fewer.len() as int] == ranking.push(p));
            }
        }
    }
}

/// A longer ranking comes before another one as its beginning comes before the other's.
proof fn longer_ranks_before(a: Seq<usize>, b: Seq<usize>, p: usize, q: usize)
    requires
        a.len() == b.len(),
        ranks_before(a, b) || (a == b && p < q),
    ensures
        ranks_before(a.push(p), b.push(q)),
{
    let x = a.push(p);
    let y = b.push(q);
    if ranks_before(a, b) {
        let i = choose|i: int|
            0 <= i < a.len() && i < b.len() && (#[trigger] a[i]) < b[i] && (forall|j: int|
                0 <= j < i ==> #[trigger] a[j] == b[j]);
        assert(x[i] < y[i]);
        assert forall|j: int| 0 <= j < i implies #[trigger] x[j] == y[j] by {
            assert(a[j] == b[j]);
        }
    } else {
        assert(x[a.len() as int] < y[a.len() as int]);
    }
}

/// Extending ascending rankings gives ascending rankings, each of which begins with one of them.
proof fn extends_all_in_order(rankings: Seq<Seq<usize>>, n: nat, k: nat)
    requires
        n <= usize::MAX,
        forall|i: int| 0 <= i < rankings.len() ==> is_ranking(#[trigger] rankings[i], n, k),
        forall|i: int, j: int|
            0 <= i < j < rankings.len() ==> ranks_before(
                #[trigger] rankings[i],
                #[trigger] rankings[j],
            ),
    ensures
        forall|i: int|
            0 <= i < extend_all(rankings, n).len() ==> is_ranking(
                #[trigger] extend_all(rankings, n)[i],
                n,
                (k + 1) as nat,
            ) && rankings.contains(extend_all(rankings, n)[i].drop_last()),
        forall|i: int, j: int|
            0 <= i < j < extend_all(rankings, n).len() ==> ranks_before(
                #[trigger] extend_all(rankings, n)[i],
                #[trigger] extend_all(rankings, n)[j],
            ),
        forall|r: Seq<usize>, p: usize|
            rankings.contains(r) && p < n && !r.contains(p) ==> extend_all(rankings, n).contains(
                #[trigger] r.push(p),
            ),
    decreases rankings.len(),
{
    if rankings.len() > 0 {
        let earlier = rankings.drop_last();
        let last = rankings.last();
        extends_all_in_order(earlier, n, k);
        extends_in_order(last, n as int);
        let head = extend_all(earlier, n);
        let tail = extend(last, n as int);
        let all = extend_all(rankings, n);
        assert(all == head + tail);
        assert(rankings[rankings.len() - 1] == last);
        assert forall|i: int| 0 <= i < all.len() implies is_ranking(
            #[trigger] all[i],
            n,
            (k + 1) as nat,
        ) && rankings.contains(all[i].drop_last()) by {
            if i < head.len() {
                assert(all[i] == head[i]);
                assert(earlier.contains(all[i].drop_last()));
                let m = choose|m: int| 0 <= m < earlier.len() && earlier[m] == all[i].drop_last();
                assert(rankings[m] == all[i].drop_last());
            } else {
                let longer = tail[i - head.len()];
                assert(all[i] == longer);
                assert(longer == last.push(longer.last()));
                assert(longer.drop_last() =~= last);
                let p = longer.last();
                assert forall|a: int, b: int| 0 <= a < b < k + 1 implies #[trigger] longer[a]
                    != #[trigger] longer[b] by {
                    if b == k {
                        assert(longer[a] == last[a]);
                        assert(last.contains(last[a]));
                    } else {
                        assert(longer[a] == last[a]);
                        assert(longer[b] == last[b]);
                    }
                }
                assert forall|a: int| 0 <= a < k + 1 implies (#[trigger] longer[a]) < n by {
                    if a < k {
                        assert(longer[a] == last[a]);
                    }
                }
            }
        }
        assert forall|i: int, j: int| 0 <= i < j < all.len() implies ranks_before(
            #[trigger] all[i],
            #[trigger] all[j],
        ) by {
            if j < head.len() {
                assert(all[i] == head[i]);
                assert(all[j] == head[j]);
            } else {
                let y = tail[j - head.len()];
                assert(all[j] == y);
                assert(y == last.push(y.last()));
                if i < head.len() {
                    let x = head[i];
                    assert(all[i] == x);
                    assert(earlier.contains(x.drop_last()));
                    let m = choose|m: int| 0 <= m < earlier.len() && earlier[m] == x.drop_last();
                    assert(rankings[m] == x.drop_last());
                    assert(ranks_before(rankings[m], rankings[rankings.len() - 1]));
                    assert(is_ranking(rankings[m], n, k));
                    assert(x =~= x.drop_last().push(x.last()));
                    longer_ranks_before(x.drop_last(), last, x.last(), y.last());
                } else {
                    let x = tail[i - head.len()];
                    assert(all[i] == x);
                    assert(x == last.push(x.last()));
                    assert(x.last() < y.last());
                    longer_ranks_before(last, last, x.last(), y.last());
                }
            }
        }
        assert forall|r: Seq<usize>, p: usize|
            rankings.contains(r) && p < n && !r.contains(p) implies all.contains(
            #[trigger] r.push(p),
        ) by {
            let m = choose|m: int| 0 <= m < rankings.len() && rankings[m] == r;
            if m < rankings.len() - 1 {
                assert(earlier[m] == r);
                assert(earlier.contains(r));
                assert(head.contains(r.push(p)));
                let i = choose|i: int| 0 <= i < head.len() && head[i] == r.push(p);
                assert(all[i] == r.push(p));
            } else {
                assert(tail.contains(r.push(p)));
                let i = choose|i: int| 0 <= i < tail.len() && tail[i] == r.push(p);
                assert(all[head.len() + i] == r.push(p));
            }
        }
    }
}

/// For any number of players and places there is a list of all rankings, in ascending order.
pub proof fn rankings_can_be_listed(n: nat, k: nat)
    requires
        n <= usize::MAX,
    ensures
        lists_rankings(all_rankings(n, k), n, k),
    decreases k,
{
    if k == 0 {
        let only = seq![Seq::<usize>::empty()];
        assert forall|ranking: Seq<usize>| #[trigger] is_ranking(ranking, n, 0) implies only.contains(
            ranking,
        ) by {
            assert(ranking =~= only[0]);
        }
        assert(lists_rankings(only, n, 0));
    } else {
        let shorter = all_rankings(n, (k - 1) as nat);
        rankings_can_be_listed(n, (k - 1) as nat);
        extends_all_in_order(shorter, n, (k - 1) as nat);
        let longer = extend_all(shorter, n);
        assert forall|ranking: Seq<usize>| #[trigger] is_ranking(ranking, n, k) implies longer.contains(
            ranking,
        ) by {
            let begins = ranking.drop_last();
            assert(is_ranking(begins, n, (k - 1) as nat)) by {
                assert forall|i: int| 0 <= i < k - 1 implies (#[trigger] begins[i]) < n by {
                    assert(begins[i] == ranking[i]);
                }
                assert forall|i: int, j: int| 0 <= i < j < k - 1 implies #[trigger] begins[i]
                    != #[trigger] begins[j] by {
                    assert(begins[i] == ranking[i]);
                    assert(begins[j] == ranking[j]);
                }
            }
            assert(shorter.contains(begins));
            let p = ranking.last();
            assert(!begins.contains(p)) by {
                if begins.contains(p) {
                    let i = choose|i: int| 0 <= i < begins.len() && begins[i] == p;
                    assert(ranking[i] == ranking[k - 1]);
                }
            }
            assert(begins.push(p) =~= ranking);
        }
        assert(lists_rankings(longer, n, k));
    }
}

} // verus!
