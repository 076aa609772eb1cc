//! Per-tick bookkeeping.

use vstd::prelude::*;

verus! {

/// Counters and switches that the tick keeps.
///
/// The two switches belong to the user and are only read by the tick; the
/// two counters are rewritten by every tick. The position of the largest
/// planet is cached by the caller, from the index that the tick hands out.
#[derive(Clone, Copy, Debug, PartialEq, Eq)]
pub struct Stats {
    /// The number of ticks made so far.
    pub frame_number: usize,
    /// The number of bodies that the last tick started with.
    pub n_objects: usize,
    /// Whether the camera follows the largest planet.
    pub center_on_largest: bool,
    /// Whether trace markers are laid down.
    pub draw_traces: bool,
}

impl Default for Stats {
    /// No tick made, no body seen, both switches off.
    fn default() -> (s: Stats)
        ensures
            s.frame_number == 0,
            s.n_objects == 0,
            !s.center_on_largest,
            !s.draw_traces,
    {
        Stats { frame_number: 0, n_objects: 0, center_on_largest: false, draw_traces: false }
    }
}

} // verus!
