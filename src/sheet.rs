//! Working with recorded timesheets (lists of events).
use vstd::prelude::*;

use crate::clock::now;
use crate::event::{effective_stop, Duration, Event, Instant};

verus! {

/// Declares `std::io::Error`, carried by the errors of reading and writing a sheet.
#[verifier::external_type_specification]
#[verifier::external_body]
pub struct ExIoError(std::io::Error);

/// Declares `serde_json::Error`, carried by the error of parsing a sheet.
#[verifier::external_type_specification]
#[verifier::external_body]
pub struct ExJsonError(serde_json::Error);

/// The most events a sheet can be asked to total. An event takes 24 bytes, so no vector
/// in a 64-bit address space holds this many; the bound only keeps the running total
/// provably inside an `i128`.
pub const MAX_EVENTS: u64 = 0x1000_0000_0000_0000;

/// List of events, together comprising a log of work from which totals can be calculated
/// for various periods of time.
///
/// Only the last event may be ongoing; the punch operations keep it so.
#[derive(Clone, Debug)]
pub struct Sheet {
    pub events: Vec<Event>,
}

/// Whether or not time is currently being tracked.
#[derive(Clone, Copy, Debug, PartialEq, Eq, Hash, Structural)]
pub enum SheetStatus {
    /// Time is currently being tracked, and has been since the given instant.
    PunchedIn(Instant),
    /// Time is not currently being tracked, as of the given instant.
    PunchedOut(Instant),
    /// No time has ever been tracked.
    Empty,
}

/// Errors arising through the use of a [`Sheet`].
#[derive(Debug)]
pub enum SheetError {
    /// Already punched in, since the given instant.
    PunchedIn(Instant),
    /// Not punched in; last punched out at the given instant.
    PunchedOut(Instant),
    /// Not punched in, and no punch-ins recorded.
    NoPunches,
    /// The sheet file could not be located.
    FindSheet,
    /// The sheet file could not be opened.
    OpenSheet(std::io::Error),
    /// The sheet file could not be read.
    ReadSheet(std::io::Error),
    /// The sheet file could not be parsed.
    ParseSheet(serde_json::Error),
    /// The sheet could not be written to its file.
    WriteSheet(std::io::Error),
}

impl View for Sheet {
    type V = Seq<Event>;

    open spec fn view(&self) -> Seq<Event> {
        self.events@
    }
}

/// The status of a log, read off its last event.
pub open spec fn status_of(events: Seq<Event>) -> SheetStatus {
    if events.len() == 0 {
        SheetStatus::Empty
    } else {
        match events.last().stop {
            Some(t) => SheetStatus::PunchedOut(t),
            None => SheetStatus::PunchedIn(events.last().start),
        }
    }
}

/// The log and the result after punching in at `t`.
pub open spec fn punch_in_outcome(events: Seq<Event>, t: Instant) -> (Seq<Event>, Result<
    Instant,
    SheetError,
>) {
    match status_of(events) {
        SheetStatus::PunchedIn(since) => (events, Err(SheetError::PunchedIn(since))),
        _ => (events.push(Event { start: t, stop: None }), Ok(t)),
    }
}

/// The log and the result after punching out at `t`.
pub open spec fn punch_out_outcome(events: Seq<Event>, t: Instant) -> (Seq<Event>, Result<
    Instant,
    SheetError,
>) {
    match status_of(events) {
        SheetStatus::PunchedIn(since) => (
            events.update(events.len() - 1, Event { start: since, stop: Some(t) }),
            Ok(t),
        ),
        SheetStatus::PunchedOut(since) => (events, Err(SheetError::PunchedOut(since))),
        SheetStatus::Empty => (events, Err(SheetError::NoPunches)),
    }
}

/// Whether event `e` lies wholly before `begin` or wholly after `end`, its ongoing end
/// taken as `now`.
pub open spec fn outside_range(e: Event, begin: Instant, end: Instant, now: Instant) -> bool {
    let s = e.start.micros as int;
    let t = effective_stop(e, now);
    (s < begin.micros && t < begin.micros) || (s > end.micros && t > end.micros)
}

/// What event `e` adds to the total over `begin..end`: nothing when it lies outside the
/// range, else the span between its start and end clamped to the range.
pub open spec fn contribution(e: Event, begin: Instant, end: Instant, now: Instant) -> int {
    if outside_range(e, begin, end, now) {
        0
    } else {
        let lo = if begin.micros >= e.start.micros {
            begin.micros as int
        } else {
            e.start.micros as int
        };
        let hi = if end.micros <= effective_stop(e, now) {
            end.micros as int
        } else {
            effective_stop(e, now)
        };
        hi - lo
    }
}

/// The tracked time of `events` over `begin..end`, in microseconds.
pub open spec fn total(events: Seq<Event>, begin: Instant, end: Instant, now: Instant) -> int
    decreases events.len(),
{
    if events.len() == 0 {
        0
    } else {
        total(events.drop_last(), begin, end, now) + contribution(events.last(), begin, end, now)
    }
}

proof fn lemma_total_bound(events: Seq<Event>, begin: Instant, end: Instant, now: Instant)
    ensures
        -(events.len() * 0x2_0000_0000_0000_0000) <= total(events, begin, end, now)
            <= events.len() * 0x2_0000_0000_0000_0000,
    decreases events.len(),
{
    if events.len() > 0 {
        lemma_total_bound(events.drop_last(), begin, end, now);
    }
}

impl PartialEq for Sheet {
    fn eq(&self, other: &Sheet) -> (r: bool)
        ensures
            r == (self@ == other@),
    {
        let n = self.events.len();
        if n != other.events.len() {
            return false;
        }
        let mut i: usize = 0;
        while i < n
            invariant
                n == self@.len() == other@.len(),
                i <= n,
                forall|j: int| 0 <= j < i ==> self@[j] == other@[j],
            decreases n - i,
        {
            if self.events[i] != other.events[i] {
                return false;
            }
            i = i + 1;
        }
        proof {
            assert(self@ =~= other@);
        }
        true
    }
}

impl vstd::std_specs::cmp::PartialEqSpecImpl for Sheet {
    open spec fn obeys_eq_spec() -> bool {
        true
    }

    open spec fn eq_spec(&self, other: &Sheet) -> bool {
        self@ == other@
    }
}

impl Eq for Sheet {
}

impl Default for Sheet {
    fn default() -> (r: Sheet)
        ensures
            r@ == Seq::<Event>::empty(),
    {
        Sheet { events: Vec::new() }
    }
}

impl Sheet {
    /// Record a punch-in (start of a time-tracking period) at the current time.
    pub fn punch_in(&mut self) -> (r: Result<Instant, SheetError>)
        ensures
            exists|t: Instant| (final(self)@, r) == punch_in_outcome(old(self)@, t),
    {
        let t = now();
        self.punch_in_at(t)
    }

    /// Record a punch-in (start of a time-tracking period) at the given time.
    pub fn punch_in_at(&mut self, time: Instant) -> (r: Result<Instant, SheetError>)
        ensures
            (final(self)@, r) == punch_in_outcome(old(self)@, time),
    {
        let n = self.events.len();
        if n > 0 && self.events[n - 1].stop.is_none() {
            Err(SheetError::PunchedIn(self.events[n - 1].start))
        } else {
            self.events.push(Event::new(time));
            Ok(time)
        }
    }

    /// Record a punch-out (end of a time-tracking period) at the current time.
    pub fn punch_out(&mut self) -> (r: Result<Instant, SheetError>)
        ensures
            exists|t: Instant| (final(self)@, r) == punch_out_outcome(old(self)@, t),
    {
        let t = now();
        self.punch_out_at(t)
    }

    /// Record a punch-out (end of a time-tracking period) at the given time.
    pub fn punch_out_at(&mut self, time: Instant) -> (r: Result<Instant, SheetError>)
        ensures
            (final(self)@, r) == punch_out_outcome(old(self)@, time),
    {
        let n = self.events.len();
        if n == 0 {
            return Err(SheetError::NoPunches);
        }
        let last = self.events[n - 1];
        match last.stop {
            Some(t) => Err(SheetError::PunchedOut(t)),
            None => {
                self.events.set(n - 1, Event { start: last.start, stop: Some(time) });
                Ok(time)
            },
        }
    }

    /// The current status of time-tracking, including the time at which the status last
    /// changed.
    pub fn status(&self) -> (r: SheetStatus)
        ensures
            r == status_of(self@),
    {
        let n = self.events.len();
        if n == 0 {
            SheetStatus::Empty
        } else {
            let last = self.events[n - 1];
            match last.stop {
                Some(t) => SheetStatus::PunchedOut(t),
                None => SheetStatus::PunchedIn(last.start),
            }
        }
    }

    /// The amount of recorded work between `begin` and `end`, an ongoing period counted as
    /// running until `now`.
    pub fn count_range_at(&self, begin: Instant, end: Instant, now: Instant) -> (r: Duration)
        requires
            self@.len() <= MAX_EVENTS,
        ensures
            r.micros == total(self@, begin, end, now),
    {
        let mut sum: i128 = 0;
        let mut i: usize = 0;
        while i < self.events.len()
            invariant
                i <= self@.len() <= MAX_EVENTS,
                sum == total(self@.take(i as int), begin, end, now),
            decreases self@.len() - i,
        {
            let e = self.events[i];
            let s = e.start.micros;
            let t = match e.stop {
                Some(x) => x.micros,
                None => now.micros,
            };
            proof {
                assert(self@.take(i + 1).drop_last() == self@.take(i as int));
                lemma_total_bound(self@.take(i as int), begin, end, now);
                assert(i * 0x2_0000_0000_0000_0000 <= MAX_EVENTS * 0x2_0000_0000_0000_0000);
            }
            let entirely_before = s < begin.micros && t < begin.micros;
            let entirely_after = s > end.micros && t > end.micros;
            if !(entirely_before || entirely_after) {
                let lo = if begin.micros >= s { begin.micros } else { s };
                let hi = if end.micros <= t { end.micros } else { t };
                sum = sum + (hi as i128 - lo as i128);
            }
            i = i + 1;
        }
        proof {
            assert(self@.take(i as int) == self@);
        }
        Duration { micros: sum }
    }

    /// The amount of recorded work between `begin` and `end`, including an ongoing period
    /// up to the current time.
    pub fn count_range(&self, begin: Instant, end: Instant) -> (r: Duration)
        requires
            self@.len() <= MAX_EVENTS,
        ensures
            exists|t: Instant| r.micros == total(self@, begin, end, t),
    {
        let t = now();
        self.count_range_at(begin, end, t)
    }
}

} // verus!
