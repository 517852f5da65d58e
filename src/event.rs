//! Instants, durations and single events of tracked time.
use vstd::prelude::*;

verus! {

/// An absolute instant in UTC, as the number of microseconds since 1970-01-01T00:00:00Z.
#[derive(Clone, Copy, Debug, PartialEq, Eq, Hash, Structural)]
pub struct Instant {
    pub micros: i64,
}

impl Instant {
    /// The instant `micros` microseconds after the Unix epoch (before it, if negative).
    pub fn from_micros(micros: i64) -> (r: Instant)
        ensures
            r.micros == micros,
    {
        Instant { micros }
    }
}

/// A signed span of time, in microseconds.
#[derive(Clone, Copy, Debug, PartialEq, Eq, Hash, Structural)]
pub struct Duration {
    pub micros: i128,
}

impl Duration {
    /// The empty duration.
    pub fn zero() -> (r: Duration)
        ensures
            r.micros == 0,
    {
        Duration { micros: 0 }
    }

    /// A duration of `n` minutes.
    pub fn minutes(n: i64) -> (r: Duration)
        ensures
            r.micros == n as int * 60_000_000,
    {
        Duration { micros: n as i128 * 60_000_000 }
    }

    /// A duration of `n` hours.
    pub fn hours(n: i64) -> (r: Duration)
        ensures
            r.micros == n as int * 3_600_000_000,
    {
        Duration { micros: n as i128 * 3_600_000_000 }
    }
}

/// A (possibly ongoing) period of time tracking.
#[derive(Clone, Copy, Debug, PartialEq, Eq, Hash, Structural)]
pub struct Event {
    /// The start of the period.
    pub start: Instant,
    /// The end of the period; `None` while the period is still ongoing.
    pub stop: Option<Instant>,
}

impl Event {
    /// A new, ongoing event starting at `start`.
    pub fn new(start: Instant) -> (r: Event)
        ensures
            r == (Event { start, stop: None }),
    {
        Event { start, stop: None }
    }
}

/// Where an event effectively ends: its stop, or `now` while it is still ongoing.
pub open spec fn effective_stop(e: Event, now: Instant) -> int {
    match e.stop {
        Some(t) => t.micros as int,
        None => now.micros as int,
    }
}

} // verus!
