//! A class of the timetable, and the window of time in which it is shown.

use vstd::prelude::*;
use crate::time::{clock, Duration, Instant, Timestamp, DAY};

verus! {

/// One class: what is taught, in which form, where and when.
#[derive(Debug, Clone, PartialEq, Eq)]
pub struct Event {
    /// The name of the course.
    pub event_name: String,
    /// The kind of class, such as lecture or lab.
    pub event_type: String,
    /// The room.
    pub location: String,
    /// When the class starts.
    pub from: Timestamp,
    /// When the class ends.
    pub to: Timestamp,
}

/// What the contracts say of an [`Event`].
pub struct EventView {
    pub name: Seq<char>,
    pub kind: Seq<char>,
    pub location: Seq<char>,
    pub from: Timestamp,
    pub to: Timestamp,
}

impl View for Event {
    type V = EventView;

    open spec fn view(&self) -> EventView {
        EventView {
            name: self.event_name@,
            kind: self.event_type@,
            location: self.location@,
            from: self.from,
            to: self.to,
        }
    }
}

/// The number of nanoseconds in a second.
pub const NANOS: i128 = 1_000_000_000;

/// The time from `now` to the second `end`, in nanoseconds; negative where
/// `end` is past.
pub open spec fn nanos_until(end: i64, now: Instant) -> int {
    (end - now.seconds) * NANOS - now.nanos
}

/// The longest time, in days, that an event may lie ahead and still be shown.
pub const WINDOW_DAYS: i64 = 14;

/// Every event of the sequence is well formed.
pub open spec fn all_wf(events: Seq<Event>) -> bool {
    forall|i: int| 0 <= i < events.len() ==> (#[trigger] events[i]).wf()
}

/// The test by which events are kept at `now`.
pub open spec fn upcoming(now: Instant) -> spec_fn(Event) -> bool {
    |e: Event| e.shown_at(now)
}

impl Event {
    /// Both timestamps are well formed.
    pub open spec fn wf(self) -> bool {
        self.from.wf() && self.to.wf()
    }

    /// The event's end lies no less than `low` and no more than `high` after
    /// `now`, both bounds included.
    pub open spec fn within(self, now: Instant, low: Duration, high: Duration) -> bool {
        low.seconds * NANOS <= nanos_until(self.to.seconds, now) <= high.seconds * NANOS
    }

    /// The event is shown at `now`: it ends no earlier than now and no later
    /// than fourteen days from now.
    pub open spec fn shown_at(self, now: Instant) -> bool {
        self.within(now, Duration { seconds: 0 }, Duration { seconds: (WINDOW_DAYS * DAY) as i64 })
    }

    /// Whether both timestamps are well formed.
    pub fn is_wf(&self) -> (r: bool)
        ensures
            r == self.wf(),
    {
        self.from.is_wf() && self.to.is_wf()
    }

    /// Whether the event's end lies between `low` and `high` after `now`.
    ///
    /// The time from `now` to the end is taken exactly, to the nanosecond,
    /// and both bounds are included.
    pub fn in_day_range_at(&self, now: &Instant, low: Duration, high: Duration) -> (r: bool)
        ensures
            r == self.within(*now, low, high),
    {
        let seconds: i128 = self.to.seconds as i128 - now.seconds as i128;
        let distance: i128 = seconds * NANOS - now.nanos as i128;
        low.seconds as i128 * NANOS <= distance && distance <= high.seconds as i128 * NANOS
    }

    /// Whether the event's end lies between `low` and `high` after the
    /// present moment, which is read from the system clock.
    pub fn in_day_range(&self, low: Duration, high: Duration) -> (r: bool)
        ensures
            exists|now: Instant| r == self.within(now, low, high),
    {
        let now = clock();
        self.in_day_range_at(&now, low, high)
    }
}

/// An event is shown exactly where the time from `now` to its end is no
/// less than nothing and no more than fourteen days. Where `now` falls on a
/// whole second, an event that ends at `now` is therefore shown, and so is
/// one that ends fourteen days later; one that ended a minute before `now`
/// is not, nor is one that ends a minute after the fourteen days.
pub proof fn lemma_window_bounds(event: Event, now: Instant)
    ensures
        event.shown_at(now) <==> 0 <= nanos_until(event.to.seconds, now) <= WINDOW_DAYS * DAY
            * NANOS,
        now.nanos == 0 ==> (event.shown_at(now) <==> 0 <= event.to.seconds - now.seconds
            <= WINDOW_DAYS * DAY),
        now.nanos == 0 && event.to.seconds == now.seconds ==> event.shown_at(now),
        now.nanos == 0 && event.to.seconds == now.seconds + WINDOW_DAYS * DAY ==> event.shown_at(
            now,
        ),
        event.to.seconds == now.seconds - 60 ==> !event.shown_at(now),
        now.nanos == 0 && event.to.seconds == now.seconds + WINDOW_DAYS * DAY + 60
            ==> !event.shown_at(now),
{
    let d = event.to.seconds - now.seconds;
    assert(NANOS == 1_000_000_000);
    assert(WINDOW_DAYS * DAY == 1_209_600);
    assert(nanos_until(event.to.seconds, now) == d * 1_000_000_000 - now.nanos);
}

/// Whatever part of a second `now` holds, an event whose end lies before
/// `now` is not shown, were it by a single nanosecond, nor is one whose end
/// lies more than fourteen days after it.
pub proof fn lemma_window_any_clock(event: Event, now: Instant)
    requires
        now.nanos < NANOS,
    ensures
        event.shown_at(now) <==> if now.nanos == 0 {
            now.seconds <= event.to.seconds <= now.seconds + WINDOW_DAYS * DAY
        } else {
            now.seconds < event.to.seconds <= now.seconds + WINDOW_DAYS * DAY
        },
{
    let d = event.to.seconds - now.seconds;
    assert(NANOS == 1_000_000_000);
    assert(WINDOW_DAYS * DAY == 1_209_600);
    assert(nanos_until(event.to.seconds, now) == d * 1_000_000_000 - now.nanos);
}

/// Keeps the events that are shown at `now`, in their order.
pub fn filter_events_at(events: Vec<Event>, now: &Instant) -> (r: Vec<Event>)
    ensures
        r@ == events@.filter(upcoming(*now)),
        r.len() <= events.len(),
        all_wf(events@) ==> all_wf(r@),
{
    let ghost keep = upcoming(*now);
    let ghost all = events@;
    let mut kept: Vec<Event> = Vec::new();
    for event in it: events.into_iter()
        invariant
            keep == upcoming(*now),
            it.seq() == all,
            kept@ == all.take(it.index() as int).filter(keep),
            all_wf(all) ==> all_wf(kept@),
    {
        proof {
            all.lemma_take_succ_push(it.index() as int);
            all.take(it.index() as int).lemma_filter_push(event, keep);
        }
        if event.in_day_range_at(now, Duration::zero(), Duration::days(WINDOW_DAYS)) {
            kept.push(event);
        }
    }
    proof {
        assert(all.take(all.len() as int) =~= all);
        all.lemma_filter_len(keep);
    }
    kept
}

/// Keeps the events that are shown at the present moment, which is read
/// from the system clock.
pub fn filter_events(events: Vec<Event>) -> (r: Vec<Event>)
    ensures
        exists|now: Instant| r@ == events@.filter(upcoming(now)),
        r.len() <= events.len(),
        all_wf(events@) ==> all_wf(r@),
{
    let now = clock();
    filter_events_at(events, &now)
}

} // verus!
