//! Facts about punching and counting that hold across calls.
use vstd::prelude::*;

use crate::event::{effective_stop, Event, Instant};
use crate::sheet::{
    contribution, punch_in_outcome, punch_out_outcome, status_of, total, SheetError, SheetStatus,
};

verus! {

/// Every event of `events` ends no earlier than it starts, an ongoing one ending at `now`.
pub open spec fn starts_before_stops(events: Seq<Event>, now: Instant) -> bool {
    forall|i: int| 0 <= i < events.len() ==> events[i].start.micros <= #[trigger] effective_stop(events[i], now)
}

/// Every event of `events` lies, as a closed interval, at or before `begin` or at or
/// after `end`: it shares at most an endpoint with the range.
pub open spec fn disjoint_from(events: Seq<Event>, begin: Instant, end: Instant, now: Instant) -> bool {
    forall|i: int| 0 <= i < events.len() ==> #[trigger] effective_stop(events[i], now) <= begin.micros
        || events[i].start.micros >= end.micros
}

/// Every event of `events` but possibly the last has stopped.
pub open spec fn only_last_open(events: Seq<Event>) -> bool {
    forall|i: int| 0 <= i < events.len() - 1 ==> (#[trigger] events[i]).stop is Some
}

/// Punching in or out, successful or not, keeps every event but the last one stopped.
pub proof fn lemma_punches_keep_only_last_open(events: Seq<Event>, t: Instant)
    requires
        only_last_open(events),
    ensures
        only_last_open(punch_in_outcome(events, t).0),
        only_last_open(punch_out_outcome(events, t).0),
{
    let pushed = punch_in_outcome(events, t).0;
    if punch_in_outcome(events, t).1 is Ok {
        assert forall|i: int| 0 <= i < pushed.len() - 1 implies (#[trigger] pushed[i]).stop is Some by {
            assert(pushed[i] == events[i]);
            if i == events.len() - 1 {
                assert(events.last() == events[i]);
            }
        }
    }
    let closed = punch_out_outcome(events, t).0;
    assert forall|i: int| 0 <= i < closed.len() - 1 implies (#[trigger] closed[i]).stop is Some by {
        assert(closed[i] == events[i]);
    }
}

/// After a punch-in at `t` succeeds, the status is punched in since `t`.
pub proof fn lemma_status_after_punch_in(events: Seq<Event>, t: Instant)
    requires
        punch_in_outcome(events, t).1 is Ok,
    ensures
        status_of(punch_in_outcome(events, t).0) == SheetStatus::PunchedIn(t),
{
}

/// After a punch-out at `t` succeeds, the status is punched out since `t`.
pub proof fn lemma_status_after_punch_out(events: Seq<Event>, t: Instant)
    requires
        punch_out_outcome(events, t).1 is Ok,
    ensures
        status_of(punch_out_outcome(events, t).0) == SheetStatus::PunchedOut(t),
{
}

/// Punching in twice in a row: the second punch-in leaves the log as the first left it and
/// fails with the start of the ongoing period, which is `t0` when the first one succeeded.
pub proof fn lemma_punch_in_twice(events: Seq<Event>, t0: Instant, t1: Instant)
    ensures
        ({
            let first = punch_in_outcome(events, t0);
            let second = punch_in_outcome(first.0, t1);
            &&& second.0 == first.0
            &&& second.1 == Err::<Instant, SheetError>(SheetError::PunchedIn(first.0.last().start))
            &&& first.1 is Ok ==> first.0.last().start == t0
        }),
{
}

proof fn lemma_contribution_monotonic(
    e: Event,
    begin1: Instant,
    begin2: Instant,
    end1: Instant,
    end2: Instant,
    now: Instant,
)
    requires
        begin2.micros <= begin1.micros <= end1.micros <= end2.micros,
        e.start.micros <= effective_stop(e, now),
    ensures
        0 <= contribution(e, begin1, end1, now) <= contribution(e, begin2, end2, now),
{
}

/// Widening the range never lowers the total: moving `end` later or `begin` earlier
/// can only add tracked time, as long as the range and every event run forwards.
pub proof fn lemma_count_range_monotonic(
    events: Seq<Event>,
    begin1: Instant,
    begin2: Instant,
    end1: Instant,
    end2: Instant,
    now: Instant,
)
    requires
        begin2.micros <= begin1.micros <= end1.micros <= end2.micros,
        starts_before_stops(events, now),
    ensures
        total(events, begin1, end1, now) <= total(events, begin2, end2, now),
    decreases events.len(),
{
    if events.len() > 0 {
        let rest = events.drop_last();
        assert forall|i: int| 0 <= i < rest.len() implies rest[i].start.micros
            <= #[trigger] effective_stop(rest[i], now) by {
            assert(rest[i] == events[i]);
        }
        lemma_count_range_monotonic(rest, begin1, begin2, end1, end2, now);
        assert(events.last() == events[events.len() - 1]);
        lemma_contribution_monotonic(events.last(), begin1, begin2, end1, end2, now);
    }
}

/// Over a range that no event overlaps, the total is zero.
pub proof fn lemma_count_range_disjoint(events: Seq<Event>, begin: Instant, end: Instant, now: Instant)
    requires
        begin.micros <= end.micros,
        starts_before_stops(events, now),
        disjoint_from(events, begin, end, now),
    ensures
        total(events, begin, end, now) == 0,
    decreases events.len(),
{
    if events.len() > 0 {
        let rest = events.drop_last();
        assert forall|i: int| 0 <= i < rest.len() implies rest[i].start.micros
            <= #[trigger] effective_stop(rest[i], now) by {
            assert(rest[i] == events[i]);
        }
        assert forall|i: int| 0 <= i < rest.len() implies #[trigger] effective_stop(rest[i], now)
            <= begin.micros || rest[i].start.micros >= end.micros by {
            assert(rest[i] == events[i]);
        }
        lemma_count_range_disjoint(rest, begin, end, now);
        let k = events.len() - 1;
        assert(events.last() == events[k]);
        assert(events[k].start.micros <= effective_stop(events[k], now));
        assert(effective_stop(events[k], now) <= begin.micros || events[k].start.micros >= end.micros);
    }
}

} // verus!
