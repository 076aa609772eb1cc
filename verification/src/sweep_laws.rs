//! What holds of every sweep.

use vstd::prelude::*;
use crate::body::Body;
use crate::contacts::touching;
use crate::merge::{merged, Merge};
use crate::sweep::{Pull, Snapshot};

verus! {

/// The sweep visits the pair `(a, b)` before the pair `(i, j)`.
pub open spec fn earlier(a: int, b: int, i: int, j: int) -> bool {
    a < i || (a == i && b < j)
}

/// Body `k` takes part in a merge that the sweep makes before it visits
/// the pair `(i, j)`.
pub open spec fn merged_before(s: Snapshot, k: int, i: int, j: int) -> bool {
    exists|a: int, b: int|
        0 <= a && 0 <= b < s.len() && earlier(a, b, i, j) && #[trigger] s.merges_at(a, b) && (k
            == a || k == b)
}

/// A body is gone exactly when it took part in an earlier merge.
pub proof fn lemma_gone_iff_merged_before(s: Snapshot, i: int, j: int, k: int)
    requires
        0 <= i,
        0 <= j <= s.len(),
    ensures
        s.gone(i, j).contains(k) <==> merged_before(s, k, i, j),
    decreases i, j,
{
    if j > 0 {
        lemma_gone_iff_merged_before(s, i, j - 1, k);
        if s.gone(i, j).contains(k) {
            if s.gone(i, j - 1).contains(k) {
                let (a, b) = choose|a: int, b: int|
                    0 <= a && 0 <= b < s.len() && earlier(a, b, i, j - 1) && #[trigger] s.merges_at(
                        a,
                        b,
                    ) && (k == a || k == b);
                assert(earlier(a, b, i, j) && s.merges_at(a, b));
            } else {
                assert(s.merges_at(i, j - 1) && earlier(i, j - 1, i, j));
            }
        }
        if merged_before(s, k, i, j) {
            let (a, b) = choose|a: int, b: int|
                0 <= a && 0 <= b < s.len() && earlier(a, b, i, j) && #[trigger] s.merges_at(a, b)
                    && (k == a || k == b);
            if earlier(a, b, i, j - 1) {
                assert(merged_before(s, k, i, j - 1));
            }
        }
    } else if i > 0 {
        lemma_gone_iff_merged_before(s, i - 1, s.len(), k);
        if merged_before(s, k, i, 0) {
            let (a, b) = choose|a: int, b: int|
                0 <= a && 0 <= b < s.len() && earlier(a, b, i, 0) && #[trigger] s.merges_at(a, b)
                    && (k == a || k == b);
            assert(earlier(a, b, i - 1, s.len()));
        }
        if merged_before(s, k, i - 1, s.len()) {
            let (a, b) = choose|a: int, b: int|
                0 <= a && 0 <= b < s.len() && earlier(a, b, i - 1, s.len())
                    && #[trigger] s.merges_at(a, b) && (k == a || k == b);
            assert(earlier(a, b, i, 0));
        }
    }
}

/// A body that is gone stays gone.
pub proof fn lemma_gone_stays_gone(s: Snapshot, a: int, b: int, i: int, j: int, k: int)
    requires
        0 <= a,
        0 <= b <= s.len(),
        0 <= j <= s.len(),
        earlier(a, b, i, j) || (a == i && b == j),
        s.gone(a, b).contains(k),
    ensures
        s.gone(i, j).contains(k),
{
    lemma_gone_iff_merged_before(s, a, b, k);
    lemma_gone_iff_merged_before(s, i, j, k);
    let (c, d) = choose|c: int, d: int|
        0 <= c && 0 <= d < s.len() && earlier(c, d, a, b) && #[trigger] s.merges_at(c, d) && (k
            == c || k == d);
    assert(earlier(c, d, i, j));
}

/// Only bodies of the snapshot merge.
pub proof fn lemma_gone_in_range(s: Snapshot, i: int, j: int, k: int)
    requires
        0 <= i,
        0 <= j <= s.len(),
        i < s.len() || j == 0,
        i <= s.len(),
        s.gone(i, j).contains(k),
    ensures
        0 <= k < s.len(),
{
    lemma_gone_iff_merged_before(s, i, j, k);
}

/// One merge per body and tick: two different merges of one sweep share no
/// body.
pub proof fn lemma_one_merge_per_body(s: Snapshot, a: int, b: int, i: int, j: int)
    requires
        0 <= a,
        0 <= i,
        0 <= b < s.len(),
        0 <= j < s.len(),
        s.merges_at(a, b),
        s.merges_at(i, j),
        a != i || b != j,
    ensures
        a != i,
        a != j,
        b != i,
        b != j,
{
    if earlier(a, b, i, j) {
        lemma_gone_iff_merged_before(s, i, j, a);
        lemma_gone_iff_merged_before(s, i, j, b);
    } else {
        assert(earlier(i, j, a, b));
        lemma_gone_iff_merged_before(s, a, b, i);
        lemma_gone_iff_merged_before(s, a, b, j);
    }
}

/// The first pair found wins: a pair merges exactly when it collides and
/// no earlier merge took either of its bodies.
pub proof fn lemma_first_found_pair_wins(s: Snapshot, i: int, j: int)
    requires
        0 <= i,
        0 <= j < s.len(),
    ensures
        s.merges_at(i, j) <==> s.collide(i, j) && forall|a: int, b: int|
            0 <= a && 0 <= b < s.len() && earlier(a, b, i, j) && #[trigger] s.merges_at(a, b)
                ==> a != i && a != j && b != i && b != j,
{
    lemma_gone_iff_merged_before(s, i, j, i);
    lemma_gone_iff_merged_before(s, i, j, j);
    if s.merges_at(i, j) {
        assert forall|a: int, b: int|
            0 <= a && 0 <= b < s.len() && earlier(a, b, i, j) && #[trigger] s.merges_at(
                a,
                b,
            ) implies a != i && a != j && b != i && b != j by {
            lemma_one_merge_per_body(s, a, b, i, j);
        }
    }
}

/// With merging enabled no two bodies that overlap are both left: of a
/// colliding pair at least one body has merged when the sweep ends.
pub proof fn lemma_survivors_do_not_collide(s: Snapshot, i: int, j: int)
    requires
        0 <= i < s.len(),
        0 <= j < s.len(),
        s.collide(i, j),
    ensures
        s.merged_away().contains(i) || s.merged_away().contains(j),
{
    if s.gone(i, j).contains(i) {
        lemma_gone_stays_gone(s, i, j, s.len(), 0, i);
    } else if s.gone(i, j).contains(j) {
        lemma_gone_stays_gone(s, i, j, s.len(), 0, j);
    } else {
        assert(s.merges_at(i, j) && earlier(i, j, s.len(), 0));
        lemma_gone_iff_merged_before(s, s.len(), 0, i);
    }
}

/// Body `k` is one of the two bodies of an entry of `merges`.
pub open spec fn among_merged(merges: Seq<Merge>, k: int) -> bool {
    exists|p: int|
        0 <= p < merges.len() && ((#[trigger] merges[p]).survivor == k || merges[p].absorbed == k)
}

/// The bodies that are gone are those of the merges made, two for each.
pub proof fn lemma_gone_are_the_merged(s: Snapshot, i: int, j: int)
    requires
        0 <= i <= usize::MAX,
        0 <= j <= s.len() <= usize::MAX,
    ensures
        forall|k: int| s.gone(i, j).contains(k) <==> among_merged(s.merges_before(i, j), k),
        s.gone(i, j).finite(),
        s.gone(i, j).len() == 2 * s.merges_before(i, j).len(),
    decreases i, j,
{
    if j > 0 {
        lemma_gone_are_the_merged(s, i, j - 1);
        let before = s.merges_before(i, j - 1);
        let now = s.merges_before(i, j);
        if s.merges_at(i, j - 1) {
            assert forall|k: int| s.gone(i, j).contains(k) implies among_merged(now, k) by {
                if s.gone(i, j - 1).contains(k) {
                    let p = choose|p: int|
                        0 <= p < before.len() && ((#[trigger] before[p]).survivor == k
                            || before[p].absorbed == k);
                    assert(now[p] == before[p]);
                } else {
                    let last = now[before.len() as int];
                    assert(last.survivor == k || last.absorbed == k);
                }
            }
            assert forall|k: int| among_merged(now, k) implies s.gone(i, j).contains(k) by {
                let p = choose|p: int|
                    0 <= p < now.len() && ((#[trigger] now[p]).survivor == k || now[p].absorbed
                        == k);
                if p < before.len() {
                    assert(before[p] == now[p]);
                    assert(among_merged(before, k));
                }
            }
        }
    } else if i > 0 {
        lemma_gone_are_the_merged(s, i - 1, s.len());
    }
}

/// Both bodies of every merge are gone when the sweep ends and no other
/// body is: two bodies of the snapshot for each merge.
pub proof fn lemma_merged_away_are_the_merged(s: Snapshot)
    requires
        s.len() <= usize::MAX,
    ensures
        forall|k: int| s.merged_away().contains(k) <==> among_merged(s.merges(), k),
        forall|k: int| s.merged_away().contains(k) ==> 0 <= k < s.len(),
        s.merged_away().finite(),
        s.merged_away().len() == 2 * s.merges().len(),
{
    lemma_gone_are_the_merged(s, s.len(), 0);
    assert forall|k: int| s.merged_away().contains(k) implies 0 <= k < s.len() by {
        lemma_gone_in_range(s, s.len(), 0, k);
    }
}

/// `m` merges two different bodies of `bodies`, lets one that is at least
/// as heavy as the other survive, and gives a sun exactly if one of the two
/// is a sun.
pub open spec fn is_fair(bodies: Seq<Body>, m: Merge) -> bool {
    &&& m.survivor != m.absorbed
    &&& m.survivor < bodies.len()
    &&& m.absorbed < bodies.len()
    &&& bodies[m.survivor as int].mass_rank >= bodies[m.absorbed as int].mass_rank
    &&& m.is_sun == (bodies[m.survivor as int].is_sun || bodies[m.absorbed as int].is_sun)
}

/// Every merge of a sweep is fair.
pub proof fn lemma_merges_are_fair(s: Snapshot, i: int, j: int)
    requires
        0 <= i <= s.len() <= usize::MAX,
        0 <= j <= s.len(),
        i < s.len() || j == 0,
    ensures
        forall|p: int|
            0 <= p < s.merges_before(i, j).len() ==> is_fair(
                s.bodies,
                #[trigger] s.merges_before(i, j)[p],
            ),
    decreases i, j,
{
    if j > 0 {
        lemma_merges_are_fair(s, i, j - 1);
        let before = s.merges_before(i, j - 1);
        let now = s.merges_before(i, j);
        assert forall|p: int| 0 <= p < now.len() implies is_fair(s.bodies, #[trigger] now[p]) by {
            if p < before.len() {
                assert(now[p] == before[p]);
            } else {
                assert(s.merges_at(i, j - 1));
                assert(now[p] == merged(
                    i as usize,
                    s.bodies[i],
                    (j - 1) as usize,
                    s.bodies[j - 1],
                ));
            }
        }
    } else if i > 0 {
        lemma_merges_are_fair(s, i - 1, s.len());
        assert(s.merges_before(i, j) == s.merges_before(i - 1, s.len()));
    }
}

/// A sun does not vanish in a sweep: it is left as it is, or it is one of
/// the two bodies of a merge that gives a sun.
pub proof fn lemma_suns_persist(s: Snapshot, k: int)
    requires
        0 <= k < s.len() <= usize::MAX,
        s.bodies[k].is_sun,
    ensures
        !s.merged_away().contains(k) || exists|p: int|
            0 <= p < s.merges().len() && ((#[trigger] s.merges()[p]).survivor == k
                || s.merges()[p].absorbed == k) && s.merges()[p].is_sun,
{
    if s.merged_away().contains(k) {
        lemma_merged_away_are_the_merged(s);
        lemma_merges_are_fair(s, s.len(), 0);
        let p = choose|p: int|
            0 <= p < s.merges().len() && ((#[trigger] s.merges()[p]).survivor == k
                || s.merges()[p].absorbed == k);
        assert(is_fair(s.bodies, s.merges()[p]));
    }
}

/// Body `b` is the source of an entry of `pulls`.
pub open spec fn pulled_by(pulls: Seq<Pull>, b: int) -> bool {
    exists|p: int| 0 <= p < pulls.len() && (#[trigger] pulls[p]).source == b
}

/// The pulls gathered on body `i` come from exactly the bodies that the
/// sweep has pull on it, once each and in index order, and are clamped
/// exactly where the pair overlaps.
pub proof fn lemma_pulls_on(s: Snapshot, i: int, j: int)
    requires
        0 <= j <= usize::MAX,
    ensures
        forall|p: int|
            0 <= p < s.pulls_on(i, j).len() ==> {
                let pull = #[trigger] s.pulls_on(i, j)[p];
                &&& 0 <= pull.source < j
                &&& s.pulls_at(i, pull.source as int)
                &&& pull.clamped == touching(s.contacts, i, pull.source as int)
            },
        forall|p: int, q: int|
            0 <= p < q < s.pulls_on(i, j).len() ==> (#[trigger] s.pulls_on(i, j)[p]).source < (
            #[trigger] s.pulls_on(i, j)[q]).source,
        forall|b: int| 0 <= b < j && s.pulls_at(i, b) ==> pulled_by(s.pulls_on(i, j), b),
    decreases j,
{
    if j > 0 {
        lemma_pulls_on(s, i, j - 1);
        let before = s.pulls_on(i, j - 1);
        let now = s.pulls_on(i, j);
        assert forall|b: int| 0 <= b < j && s.pulls_at(i, b) implies pulled_by(now, b) by {
            if b < j - 1 {
                let p = choose|p: int| 0 <= p < before.len() && (#[trigger] before[p]).source == b;
                assert(now[p].source == b);
            } else {
                assert(now[before.len() as int].source == b);
            }
        }
    }
}

/// A body that is left after the sweep is pulled by exactly the bodies
/// that had not merged when the sweep passed them in its row.
pub proof fn lemma_survivor_is_pulled_by_all_present(s: Snapshot, k: int, b: int)
    requires
        0 <= k < s.len() <= usize::MAX,
        0 <= b < s.len(),
        !s.merged_away().contains(k),
    ensures
        pulled_by(s.pulls_felt(k), b) <==> b != k && !s.gone(k, b).contains(b),
{
    let pulls = s.pulls_on(k, s.len());
    assert(s.pulls_felt(k) == pulls);
    lemma_pulls_on(s, k, s.len());
    if s.gone(k, b).contains(k) {
        lemma_gone_stays_gone(s, k, b, s.len(), 0, k);
    }
    if pulled_by(pulls, b) {
        let p = choose|p: int| 0 <= p < pulls.len() && (#[trigger] pulls[p]).source == b;
        assert(s.pulls_at(k, pulls[p].source as int));
    }
    if b != k && !s.gone(k, b).contains(b) {
        if s.collide(k, b) {
            assert(s.merges_at(k, b) && earlier(k, b, s.len(), 0));
            lemma_gone_iff_merged_before(s, s.len(), 0, k);
        }
        assert(s.pulls_at(k, b));
    }
}

/// Nothing collides in `s`, whether because merging is disabled or because
/// no two bodies overlap.
pub open spec fn collision_free(s: Snapshot) -> bool {
    forall|i: int, j: int| 0 <= i < s.len() && 0 <= j < s.len() ==> !#[trigger] s.collide(i, j)
}

proof fn lemma_collision_free_gone(s: Snapshot, i: int, j: int)
    requires
        collision_free(s),
        0 <= i <= s.len(),
        0 <= j <= s.len(),
        i < s.len() || j == 0,
    ensures
        s.gone(i, j) == Set::<int>::empty(),
        s.merges_before(i, j) == Seq::<Merge>::empty(),
    decreases i, j,
{
    if j > 0 {
        lemma_collision_free_gone(s, i, j - 1);
        assert(!s.collide(i, j - 1));
    } else if i > 0 {
        lemma_collision_free_gone(s, i - 1, s.len());
    }
}

/// The source of the `p`-th pull on body `k` when every other body pulls.
pub open spec fn other_body(k: int, p: int) -> int {
    if p < k {
        p
    } else {
        p + 1
    }
}

proof fn lemma_collision_free_pulls(s: Snapshot, k: int, j: int)
    requires
        collision_free(s),
        0 <= k < s.len() <= usize::MAX,
        0 <= j <= s.len(),
    ensures
        s.pulls_on(k, j).len() == if j <= k {
            j
        } else {
            j - 1
        },
        forall|p: int|
            0 <= p < s.pulls_on(k, j).len() ==> #[trigger] s.pulls_on(k, j)[p] == (Pull {
                source: other_body(k, p) as usize,
                clamped: touching(s.contacts, k, other_body(k, p)),
            }),
    decreases j,
{
    if j > 0 {
        lemma_collision_free_pulls(s, k, j - 1);
        lemma_collision_free_gone(s, k, j - 1);
        assert(!s.collide(k, j - 1));
    }
}

/// Where nothing collides, nothing merges and every body is pulled by
/// every other body, in index order; a pull is clamped exactly where the
/// two bodies overlap.
pub proof fn lemma_collision_free_sweep(s: Snapshot, k: int)
    requires
        collision_free(s),
        0 <= k < s.len() <= usize::MAX,
    ensures
        s.merged_away() == Set::<int>::empty(),
        s.merges() == Seq::<Merge>::empty(),
        s.pulls_felt(k).len() == s.len() - 1,
        forall|p: int|
            0 <= p < s.len() - 1 ==> #[trigger] s.pulls_felt(k)[p] == (Pull {
                source: other_body(k, p) as usize,
                clamped: touching(s.contacts, k, other_body(k, p)),
            }),
{
    lemma_collision_free_gone(s, s.len(), 0);
    lemma_collision_free_pulls(s, k, s.len());
}

/// With merging disabled nothing merges, however the bodies overlap, and
/// every body is pulled by every other body.
pub proof fn lemma_no_merge_without_merging(s: Snapshot, k: int)
    requires
        !s.merging,
        0 <= k < s.len() <= usize::MAX,
    ensures
        s.merged_away() == Set::<int>::empty(),
        s.merges() == Seq::<Merge>::empty(),
        s.pulls_felt(k).len() == s.len() - 1,
{
    lemma_collision_free_sweep(s, k);
}

/// A body that is alone merges with nothing and is pulled by nothing.
pub proof fn lemma_lone_body_is_left_alone(s: Snapshot)
    requires
        s.len() == 1,
    ensures
        s.merged_away() == Set::<int>::empty(),
        s.merges() == Seq::<Merge>::empty(),
        s.pulls_felt(0) == Seq::<Pull>::empty(),
{
    lemma_collision_free_sweep(s, 0);
}

/// Two bodies that do not collide pull on each other, and on nothing else.
pub proof fn lemma_two_bodies_pull_each_other(s: Snapshot)
    requires
        s.len() == 2,
        !s.collide(0, 1),
        !s.collide(1, 0),
    ensures
        s.merges() == Seq::<Merge>::empty(),
        s.pulls_felt(0) == seq![Pull { source: 1, clamped: touching(s.contacts, 0, 1) }],
        s.pulls_felt(1) == seq![Pull { source: 0, clamped: touching(s.contacts, 1, 0) }],
{
    lemma_collision_free_sweep(s, 0);
    lemma_collision_free_sweep(s, 1);
}

} // verus!
