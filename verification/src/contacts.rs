//! Which ordered pairs of bodies overlap.

use vstd::prelude::*;

verus! {

/// Whether the table `m` records that body `i` overlaps body `j`. A pair
/// that lies outside the table does not overlap.
pub open spec fn touching(m: Seq<Seq<bool>>, i: int, j: int) -> bool {
    0 <= i < m.len() && 0 <= j < m[i].len() && m[i][j]
}

/// `m` has `n` rows of `n` entries each.
pub open spec fn is_square(m: Seq<Seq<bool>>, n: nat) -> bool {
    m.len() == n && forall|i: int| 0 <= i < n ==> (#[trigger] m[i]).len() == n
}

/// The overlap relation of one tick, over the bodies `0..n`.
///
/// The caller measures the distances and marks each ordered pair whose
/// discs overlap. The relation need not be symmetric: the tick logic asks
/// about a pair in the order in which it visits it.
#[derive(Clone, Debug)]
pub struct Contacts {
    rows: Vec<Vec<bool>>,
}

impl View for Contacts {
    type V = Seq<Seq<bool>>;

    closed spec fn view(&self) -> Seq<Seq<bool>> {
        Seq::new(self.rows@.len(), |i: int| self.rows@[i]@)
    }
}

impl Contacts {
    /// A table over `n` bodies in which no pair overlaps.
    pub fn new(n: usize) -> (c: Contacts)
        ensures
            is_square(c@, n as nat),
            forall|i: int, j: int| !touching(c@, i, j),
    {
        let mut rows: Vec<Vec<bool>> = Vec::new();
        let mut i: usize = 0;
        while i < n
            invariant
                i <= n,
                rows@.len() == i,
                forall|a: int| 0 <= a < i ==> (#[trigger] rows@[a])@.len() == n,
                forall|a: int, b: int| 0 <= a < i && 0 <= b < n ==> !(#[trigger] rows@[a]@[b]),
            decreases n - i,
        {
            let mut row: Vec<bool> = Vec::new();
            let mut j: usize = 0;
            while j < n
                invariant
                    j <= n,
                    row@.len() == j,
                    forall|b: int| 0 <= b < j ==> !(#[trigger] row@[b]),
                decreases n - j,
            {
                row.push(false);
                j += 1;
            }
            rows.push(row);
            i += 1;
        }
        Contacts { rows }
    }

    /// The number of rows of the table.
    pub fn size(&self) -> (n: usize)
        ensures
            n == self@.len(),
    {
        self.rows.len()
    }

    /// Records that body `i` overlaps body `j`. A pair outside the table is
    /// ignored.
    pub fn mark(&mut self, i: usize, j: usize)
        ensures
            final(self)@ == if i < old(self)@.len() && j < old(self)@[i as int].len() {
                old(self)@.update(i as int, old(self)@[i as int].update(j as int, true))
            } else {
                old(self)@
            },
    {
        if i < self.rows.len() {
            if j < self.rows[i].len() {
                self.rows[i][j] = true;
                assert(self@ =~~= old(self)@.update(
                    i as int,
                    old(self)@[i as int].update(j as int, true),
                ));
            }
        }
    }

    /// Whether body `i` was marked as overlapping body `j`.
    pub fn touching(&self, i: usize, j: usize) -> (hit: bool)
        ensures
            hit == touching(self@, i as int, j as int),
    {
        i < self.rows.len() && j < self.rows[i].len() && self.rows[i][j]
    }
}

} // verus!
