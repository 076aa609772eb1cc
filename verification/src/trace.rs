//! Trace markers: when they are laid down and when they expire.
//!
//! Time is counted in whole nanoseconds since startup.

use vstd::prelude::*;

verus! {

/// Markers are laid down on every tick whose number is a multiple of this.
pub const TRACE_PERIOD: usize = 5;

/// How long a marker lives: ten seconds, in nanoseconds.
pub const TRACE_LIFETIME: u64 = 10_000_000_000;

/// A marker left where a body has been. It copies nothing but its expiry:
/// the caller keeps the position.
#[derive(Clone, Copy, Debug, PartialEq, Eq)]
pub struct Trace {
    /// The time up to which the marker is shown.
    pub live_until: u64,
}

/// The expiry of a marker laid down at `now`: one lifetime later, or the
/// end of time if that is sooner.
pub open spec fn expiry(now: u64) -> u64 {
    if now + TRACE_LIFETIME > u64::MAX {
        u64::MAX
    } else {
        (now + TRACE_LIFETIME) as u64
    }
}

/// Whether tick number `frame_number` lays down markers.
pub open spec fn records(frame_number: usize, draw_traces: bool) -> bool {
    draw_traces && frame_number % TRACE_PERIOD == 0
}

impl Trace {
    /// The marker is to be destroyed at `now`: its expiry has passed, or
    /// all markers are being cleared.
    pub open spec fn is_expired(self, now: u64, clear: bool) -> bool {
        self.live_until < now || clear
    }

    /// Whether the marker is to be destroyed at `now`.
    pub fn expired(&self, now: u64, clear: bool) -> (gone: bool)
        ensures
            gone == self.is_expired(now, clear),
    {
        self.live_until < now || clear
    }
}

/// Whether the tick that has just been counted as `frame_number` lays
/// down markers: every fifth tick does, while traces are drawn.
pub fn records_traces(frame_number: usize, draw_traces: bool) -> (yes: bool)
    ensures
        yes == records(frame_number, draw_traces),
{
    draw_traces && frame_number % TRACE_PERIOD == 0
}

/// The marker laid down at `now`.
pub open spec fn spawned(now: u64) -> Trace {
    Trace { live_until: expiry(now) }
}

/// Lays down a marker at `now`. It lives for ten seconds.
pub fn spawn_trace(now: u64) -> (t: Trace)
    ensures
        t == spawned(now),
{
    Trace { live_until: now.saturating_add(TRACE_LIFETIME) }
}

/// Says for each marker whether it is to be destroyed at `now`: those whose
/// expiry has passed, or all of them if clearing was requested since the
/// last call, however many times.
pub fn despawn_traces(traces: &Vec<Trace>, now: u64, clear_requests: usize) -> (doomed: Vec<bool>)
    ensures
        doomed@.len() == traces@.len(),
        forall|i: int|
            0 <= i < traces@.len() ==> #[trigger] doomed@[i] == traces@[i].is_expired(
                now,
                clear_requests > 0,
            ),
{
    let manual_clear: bool = clear_requests > 0;
    let mut doomed: Vec<bool> = Vec::new();
    let mut i: usize = 0;
    while i < traces.len()
        invariant
            i <= traces@.len(),
            doomed@.len() == i,
            manual_clear == (clear_requests > 0),
            forall|a: int|
                0 <= a < i ==> #[trigger] doomed@[a] == traces@[a].is_expired(now, manual_clear),
        decreases traces@.len() - i,
    {
        doomed.push(traces[i].expired(now, manual_clear));
        i += 1;
    }
    doomed
}

/// A marker laid down at time `t` is destroyed by every pass made later
/// than ten seconds after `t`.
pub proof fn lemma_trace_expires(t: u64, now: u64, clear_requests: usize)
    requires
        now > t + TRACE_LIFETIME,
    ensures
        spawned(t).is_expired(now, clear_requests > 0),
{
}

/// A marker laid down at time `t` is kept by every pass made up to ten
/// seconds after `t`, unless clearing was requested.
pub proof fn lemma_trace_lives(t: u64, now: u64)
    requires
        now <= t + TRACE_LIFETIME,
    ensures
        !spawned(t).is_expired(now, false),
{
}

} // verus!
