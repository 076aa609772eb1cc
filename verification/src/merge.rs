//! The discrete half of the merge rule.

use vstd::prelude::*;
use crate::body::Body;

verus! {

/// Two bodies that become one.
///
/// The merged body takes the place of `survivor`: it inherits its position
/// and its colour. The caller computes the merged radius, density and
/// velocity from the real attributes of both.
#[derive(Clone, Copy, Debug, PartialEq, Eq)]
pub struct Merge {
    /// Index of the heavier body.
    pub survivor: usize,
    /// Index of the other body.
    pub absorbed: usize,
    /// Whether the merged body is a sun.
    pub is_sun: bool,
}

/// The merge of body `a`, at index `first`, with body `b`, at index
/// `second`. The strictly heavier one survives; of two equally heavy
/// bodies the second does. The result is a sun if either body was.
pub open spec fn merged(first: usize, a: Body, second: usize, b: Body) -> Merge {
    if a.mass_rank > b.mass_rank {
        Merge { survivor: first, absorbed: second, is_sun: a.is_sun || b.is_sun }
    } else {
        Merge { survivor: second, absorbed: first, is_sun: a.is_sun || b.is_sun }
    }
}

/// Merges two colliding bodies, given with their indices.
pub fn merge_planets(first: usize, a: &Body, second: usize, b: &Body) -> (m: Merge)
    ensures
        m == merged(first, *a, second, *b),
        m.is_sun == (a.is_sun || b.is_sun),
        a.mass_rank > b.mass_rank ==> m.survivor == first && m.absorbed == second,
        a.mass_rank <= b.mass_rank ==> m.survivor == second && m.absorbed == first,
{
    let is_sun: bool = a.is_sun || b.is_sun;
    if a.mass_rank > b.mass_rank {
        Merge { survivor: first, absorbed: second, is_sun }
    } else {
        Merge { survivor: second, absorbed: first, is_sun }
    }
}

} // verus!
