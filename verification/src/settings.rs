//! The settings that the tick logic reads.

use vstd::prelude::*;

verus! {

/// The discrete simulation settings. The real-valued ones (size, density
/// and orbit ranges, the gravitational constant, the step count) stay with
/// the caller, which alone computes with them.
#[derive(Clone, Copy, Debug, PartialEq, Eq)]
pub struct Settings {
    /// How many planets a reset creates around the sun.
    pub n_objects: usize,
    /// Whether overlapping bodies merge.
    pub collisions: bool,
}

impl Default for Settings {
    /// Five hundred planets, with collisions.
    fn default() -> (s: Settings)
        ensures
            s.n_objects == 500,
            s.collisions,
    {
        Settings { n_objects: 500, collisions: true }
    }
}

} // verus!
