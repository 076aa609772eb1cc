//! One simulation tick.

use vstd::prelude::*;
use crate::body::{is_largest_planet, largest_planet, no_planet, Body};
use crate::contacts::Contacts;
use crate::settings::Settings;
use crate::stats::Stats;
use crate::sweep::{snapshot, sweep, Outcome};
use crate::trace::{records, records_traces};

verus! {

/// Everything a tick decides. The caller carries it out on the real
/// attributes of the bodies:
///
/// - if `record_traces` is set, it lays down a marker at the position of
///   every body, before any body moves;
/// - if `largest` names a body, it caches that body's position for the
///   camera, and else keeps the position cached before;
/// - for each entry of `outcome.merges` it destroys both bodies and creates
///   the merged one, which first moves in the next tick;
/// - for each body that has not merged it sums the accelerations of the
///   pulls on it, in their order, and integrates velocity and position.
#[derive(Debug, PartialEq, Eq)]
pub struct TickPlan {
    /// Whether this tick lays down trace markers.
    pub record_traces: bool,
    /// The largest planet among the bodies that the tick started with.
    pub largest: Option<usize>,
    /// The merges and pulls of the tick.
    pub outcome: Outcome,
}

/// Makes one tick over `bodies`, of which `contacts` tells the overlapping
/// pairs.
///
/// The tick is counted, the bodies are counted, and the pairs are swept
/// with merging as `settings.collisions` has it. The two switches of
/// `stats` are left as they are.
pub fn gravity(
    stats: &mut Stats,
    settings: &Settings,
    bodies: &Vec<Body>,
    contacts: &Contacts,
) -> (plan: TickPlan)
    requires
        old(stats).frame_number < usize::MAX,
    ensures
        final(stats).frame_number == old(stats).frame_number + 1,
        final(stats).n_objects == bodies@.len(),
        final(stats).center_on_largest == old(stats).center_on_largest,
        final(stats).draw_traces == old(stats).draw_traces,
        plan.record_traces == records(final(stats).frame_number, final(stats).draw_traces),
        match plan.largest {
            Some(k) => is_largest_planet(bodies@, k as int),
            None => no_planet(bodies@),
        },
        plan.outcome.resolves(snapshot(bodies@, contacts@, settings.collisions)),
        plan.outcome.in_range(bodies@.len()),
{
    stats.frame_number = stats.frame_number + 1;
    stats.n_objects = bodies.len();
    let record_traces: bool = records_traces(stats.frame_number, stats.draw_traces);
    let largest: Option<usize> = largest_planet(bodies);
    let outcome: Outcome = sweep(bodies, contacts, settings.collisions);
    TickPlan { record_traces, largest, outcome }
}

} // verus!
