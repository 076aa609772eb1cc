//! The pair sweep of one tick: who merges with whom, and who pulls on whom.
//!
//! The sweep visits every ordered pair `(i, j)` of bodies, row by row. A
//! pair of two bodies that are both still present either merges, when
//! merging is enabled and the pair overlaps, or has `j` pull on `i`. A
//! body that has merged is gone for the rest of the sweep.

use vstd::prelude::*;
use crate::body::Body;
use crate::contacts::{touching, Contacts};
use crate::merge::{merge_planets, merged, Merge};
use crate::sweep_laws::{lemma_merges_are_fair, lemma_pulls_on};

verus! {

/// One gravitational contribution to a body.
#[derive(Clone, Copy, Debug, PartialEq, Eq)]
pub struct Pull {
    /// Index of the attracting body.
    pub source: usize,
    /// The two bodies overlap: the force is to be taken at a distance of
    /// the sum of their radii, not at the distance of their centres.
    pub clamped: bool,
}

/// What a sweep starts from.
pub struct Snapshot {
    /// The bodies, in the order in which the sweep visits them.
    pub bodies: Seq<Body>,
    /// The overlap table: entry `i`, `j` says whether body `i` overlaps
    /// body `j`.
    pub contacts: Seq<Seq<bool>>,
    /// Whether overlapping bodies merge.
    pub merging: bool,
}

/// The snapshot made of the arguments.
pub open spec fn snapshot(bodies: Seq<Body>, contacts: Seq<Seq<bool>>, merging: bool) -> Snapshot {
    Snapshot { bodies, contacts, merging }
}

impl Snapshot {
    /// The number of bodies.
    pub open spec fn len(self) -> int {
        self.bodies.len() as int
    }

    /// The pair `(i, j)` merges if the sweep finds both bodies present.
    pub open spec fn collide(self, i: int, j: int) -> bool {
        self.merging && i != j && touching(self.contacts, i, j)
    }

    /// The bodies that have merged before the sweep visits the pair
    /// `(i, j)`. Row `i` ends at `(i, len)`, which is `(i + 1, 0)`.
    pub open spec fn gone(self, i: int, j: int) -> Set<int>
        decreases i, j,
    {
        if j > 0 {
            let before = self.gone(i, j - 1);
            if self.collide(i, j - 1) && !before.contains(i) && !before.contains(j - 1) {
                before.insert(i).insert(j - 1)
            } else {
                before
            }
        } else if i > 0 {
            self.gone(i - 1, self.len())
        } else {
            Set::empty()
        }
    }

    /// Both bodies of the pair are present when the sweep visits it.
    pub open spec fn meets(self, i: int, j: int) -> bool {
        i != j && !self.gone(i, j).contains(i) && !self.gone(i, j).contains(j)
    }

    /// The sweep merges the pair `(i, j)`.
    pub open spec fn merges_at(self, i: int, j: int) -> bool {
        self.meets(i, j) && self.collide(i, j)
    }

    /// The sweep has `j` pull on `i`.
    pub open spec fn pulls_at(self, i: int, j: int) -> bool {
        self.meets(i, j) && !self.collide(i, j)
    }

    /// The merges made before the sweep visits the pair `(i, j)`, in the
    /// order in which they were made.
    pub open spec fn merges_before(self, i: int, j: int) -> Seq<Merge>
        decreases i, j,
    {
        if j > 0 {
            let before = self.merges_before(i, j - 1);
            if self.merges_at(i, j - 1) {
                before.push(
                    merged(i as usize, self.bodies[i], (j - 1) as usize, self.bodies[j - 1]),
                )
            } else {
                before
            }
        } else if i > 0 {
            self.merges_before(i - 1, self.len())
        } else {
            Seq::empty()
        }
    }

    /// The pulls on body `i` from the bodies before `j`, in index order.
    pub open spec fn pulls_on(self, i: int, j: int) -> Seq<Pull>
        decreases j,
    {
        if j > 0 {
            let before = self.pulls_on(i, j - 1);
            if self.pulls_at(i, j - 1) {
                before.push(
                    Pull { source: (j - 1) as usize, clamped: touching(self.contacts, i, j - 1) },
                )
            } else {
                before
            }
        } else {
            Seq::empty()
        }
    }

    /// The bodies that merge during the sweep.
    pub open spec fn merged_away(self) -> Set<int> {
        self.gone(self.len(), 0)
    }

    /// All merges of the sweep, in the order in which they are made.
    pub open spec fn merges(self) -> Seq<Merge> {
        self.merges_before(self.len(), 0)
    }

    /// The pulls that move body `k`: those of its whole row if it is still
    /// present after the sweep, none if it has merged.
    pub open spec fn pulls_felt(self, k: int) -> Seq<Pull> {
        if self.merged_away().contains(k) {
            Seq::empty()
        } else {
            self.pulls_on(k, self.len())
        }
    }
}

/// The result of a sweep.
#[derive(Debug, PartialEq, Eq)]
pub struct Outcome {
    /// For each body, whether it merged into another.
    pub merged_away: Vec<bool>,
    /// The merges, in the order in which the sweep made them.
    pub merges: Vec<Merge>,
    /// For each body that did not merge, the pulls on it in index order;
    /// empty for a body that merged.
    pub pulls: Vec<Vec<Pull>>,
}

impl Outcome {
    /// This outcome is the one that the sweep of `s` produces.
    pub open spec fn resolves(&self, s: Snapshot) -> bool {
        &&& self.merged_away@.len() == s.len()
        &&& forall|k: int|
            0 <= k < s.len() ==> (#[trigger] self.merged_away@[k]) == s.merged_away().contains(k)
        &&& self.merges@ == s.merges()
        &&& self.pulls@.len() == s.len()
        &&& forall|k: int| 0 <= k < s.len() ==> (#[trigger] self.pulls@[k])@ == s.pulls_felt(k)
    }

    /// Every index in this outcome names one of `n` bodies, and every merge
    /// names two different ones.
    pub open spec fn in_range(&self, n: nat) -> bool {
        &&& forall|p: int|
            0 <= p < self.merges@.len() ==> {
                let m = #[trigger] self.merges@[p];
                m.survivor < n && m.absorbed < n && m.survivor != m.absorbed
            }
        &&& forall|k: int, p: int|
            0 <= k < self.pulls@.len() && 0 <= p < self.pulls@[k]@.len() ==> (
            #[trigger] self.pulls@[k]@[p]).source < n
    }
}

/// Sweeps over all ordered pairs of `bodies`.
///
/// A pair whose two bodies are both still present merges if `merging` is
/// set and `contacts` has the pair overlap; otherwise the second body pulls
/// on the first. Both bodies of a merge are gone for the rest of the sweep.
pub fn sweep(bodies: &Vec<Body>, contacts: &Contacts, merging: bool) -> (out: Outcome)
    ensures
        out.resolves(snapshot(bodies@, contacts@, merging)),
        out.in_range(bodies@.len()),
{
    let ghost s = snapshot(bodies@, contacts@, merging);
    let n: usize = bodies.len();
    let mut merged_away: Vec<bool> = Vec::new();
    let mut k: usize = 0;
    while k < n
        invariant
            k <= n,
            merged_away@.len() == k,
            forall|a: int| 0 <= a < k ==> !(#[trigger] merged_away@[a]),
        decreases n - k,
    {
        merged_away.push(false);
        k += 1;
    }
    let mut merges: Vec<Merge> = Vec::new();
    let mut pulls: Vec<Vec<Pull>> = Vec::new();
    let mut i: usize = 0;
    while i < n
        invariant
            i <= n,
            n == bodies@.len(),
            s == snapshot(bodies@, contacts@, merging),
            merged_away@.len() == n,
            forall|a: int|
                0 <= a < n ==> (#[trigger] merged_away@[a]) == s.gone(i as int, 0).contains(a),
            merges@ == s.merges_before(i as int, 0),
            pulls@.len() == i,
            forall|a: int| 0 <= a < i ==> (#[trigger] pulls@[a])@ == s.pulls_on(a, n as int),
        decreases n - i,
    {
        let mut row: Vec<Pull> = Vec::new();
        let mut j: usize = 0;
        while j < n
            invariant
                i < n,
                j <= n,
                n == bodies@.len(),
                s == snapshot(bodies@, contacts@, merging),
                merged_away@.len() == n,
                forall|a: int|
                    0 <= a < n ==> (#[trigger] merged_away@[a]) == s.gone(
                        i as int,
                        j as int,
                    ).contains(a),
                merges@ == s.merges_before(i as int, j as int),
                row@ == s.pulls_on(i as int, j as int),
            decreases n - j,
        {
            if i != j && !merged_away[i] && !merged_away[j] {
                let hit: bool = contacts.touching(i, j);
                if merging && hit {
                    merges.push(merge_planets(i, &bodies[i], j, &bodies[j]));
                    merged_away[i] = true;
                    merged_away[j] = true;
                } else {
                    row.push(Pull { source: j, clamped: hit });
                }
            }
            j += 1;
        }
        pulls.push(row);
        i += 1;
    }
    let mut k: usize = 0;
    while k < n
        invariant
            k <= n,
            n == bodies@.len(),
            s == snapshot(bodies@, contacts@, merging),
            merged_away@.len() == n,
            forall|a: int|
                0 <= a < n ==> (#[trigger] merged_away@[a]) == s.merged_away().contains(a),
            pulls@.len() == n,
            forall|a: int| 0 <= a < k ==> (#[trigger] pulls@[a])@ == s.pulls_felt(a),
            forall|a: int| k <= a < n ==> (#[trigger] pulls@[a])@ == s.pulls_on(a, n as int),
        decreases n - k,
    {
        if merged_away[k] {
            pulls[k] = Vec::new();
        }
        k += 1;
    }
    proof {
        lemma_merges_are_fair(s, n as int, 0);
        assert forall|k: int, p: int|
            0 <= k < pulls@.len() && 0 <= p < pulls@[k]@.len() implies (
        #[trigger] pulls@[k]@[p]).source < n by {
            lemma_pulls_on(s, k, n as int);
            assert(pulls@[k]@ == s.pulls_felt(k));
        }
    }
    Outcome { merged_away, merges, pulls }
}

} // verus!
