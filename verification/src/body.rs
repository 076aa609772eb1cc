//! What the tick logic reads of a body.

use vstd::prelude::*;

verus! {

/// The comparable part of one simulated body.
///
/// Radius and mass are real numbers that never enter this library. A body
/// carries a *rank* for each instead: an integer chosen by the caller so
/// that ranks compare exactly as the quantities do. For strictly positive
/// single-precision values the raw bit pattern is such a rank, with the
/// pattern of zero being `0`.
#[derive(Clone, Copy, Debug, PartialEq, Eq)]
pub struct Body {
    /// Whether this body is a sun.
    pub is_sun: bool,
    /// Orders bodies by radius; `0` stands for a radius of zero.
    pub radius_rank: u32,
    /// Orders bodies by mass.
    pub mass_rank: u32,
}

/// `k` is the body a camera that follows the largest planet looks at: a
/// planet of non-zero radius, strictly larger than every planet before it
/// and at least as large as every planet after it.
pub open spec fn is_largest_planet(bodies: Seq<Body>, k: int) -> bool {
    &&& 0 <= k < bodies.len()
    &&& !bodies[k].is_sun
    &&& bodies[k].radius_rank > 0
    &&& forall|a: int|
        0 <= a < k && !(#[trigger] bodies[a]).is_sun ==> bodies[a].radius_rank
            < bodies[k].radius_rank
    &&& forall|b: int|
        k < b < bodies.len() && !(#[trigger] bodies[b]).is_sun ==> bodies[b].radius_rank
            <= bodies[k].radius_rank
}

/// No body is a planet of non-zero radius.
pub open spec fn no_planet(bodies: Seq<Body>) -> bool {
    forall|a: int|
        0 <= a < bodies.len() ==> (#[trigger] bodies[a]).is_sun || bodies[a].radius_rank == 0
}

/// Finds the largest planet: the first one of the greatest radius among the
/// bodies that are not suns. Suns and bodies of zero radius are never chosen.
pub fn largest_planet(bodies: &Vec<Body>) -> (found: Option<usize>)
    ensures
        match found {
            Some(k) => is_largest_planet(bodies@, k as int),
            None => no_planet(bodies@),
        },
{
    let mut found: Option<usize> = None;
    let mut largest: u32 = 0;
    let mut i: usize = 0;
    while i < bodies.len()
        invariant
            i <= bodies.len(),
            match found {
                Some(k) => is_largest_planet(bodies@.take(i as int), k as int) && largest
                    == bodies[k as int].radius_rank,
                None => no_planet(bodies@.take(i as int)) && largest == 0,
            },
        decreases bodies.len() - i,
    {
        let ghost before = bodies@.take(i as int);
        let ghost after = bodies@.take(i + 1);
        assert(forall|a: int| 0 <= a < i ==> before[a] == after[a]);
        assert(after[i as int] == bodies[i as int]);
        if bodies[i].radius_rank > largest && !bodies[i].is_sun {
            largest = bodies[i].radius_rank;
            found = Some(i);
        }
        i += 1;
    }
    assert(bodies@.take(i as int) =~= bodies@);
    found
}

} // verus!
