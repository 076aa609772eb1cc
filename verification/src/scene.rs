//! What a reset creates.

use vstd::prelude::*;
use crate::settings::Settings;

verus! {

/// The part a newly created body plays.
#[derive(Clone, Copy, Debug, PartialEq, Eq)]
pub enum Role {
    /// The sun: at rest at the origin, with the size and density of the
    /// settings.
    Sun,
    /// A planet on a circular orbit around the sun, drawn at random from
    /// the ranges of the settings.
    Planet,
}

/// The bodies of a fresh system with `n` planets, in the order of their
/// creation: the sun, then the planets.
pub open spec fn fresh_system(n: nat) -> Seq<Role> {
    Seq::new(n + 1, |i: int| if i == 0 { Role::Sun } else { Role::Planet })
}

/// Decides what the start of a tick does about the resets requested since
/// the last one.
///
/// Without a request nothing happens. With one or more, every body is to be
/// destroyed and the returned bodies are to be created in their place: one
/// sun and `settings.n_objects` planets. Any number of requests makes one
/// reset.
pub fn setup_many_orbits(reset_requests: usize, settings: &Settings) -> (roster: Option<Vec<Role>>)
    ensures
        reset_requests == 0 <==> roster is None,
        roster matches Some(r) ==> r@ == fresh_system(settings.n_objects as nat) && r@.len()
            == settings.n_objects + 1,
{
    if reset_requests == 0 {
        return None;
    }
    let mut roster: Vec<Role> = Vec::new();
    roster.push(Role::Sun);
    let mut i: usize = 0;
    while i < settings.n_objects
        invariant
            i <= settings.n_objects,
            roster@.len() == i + 1,
            roster@[0] == Role::Sun,
            forall|a: int| 1 <= a <= i ==> #[trigger] roster@[a] == Role::Planet,
        decreases settings.n_objects - i,
    {
        roster.push(Role::Planet);
        i += 1;
    }
    assert(roster@ =~= fresh_system(settings.n_objects as nat));
    Some(roster)
}

} // verus!
