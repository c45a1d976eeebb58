//! Points in time, spans of time and the time zone they are read in.
//!
//! A [`Timestamp`] is an instant, counted in seconds since 1970-01-01
//! 00:00:00 UTC, together with the offset of the zone in which it is shown.
//! The calendar itself (which day a second falls on, how a date is written)
//! is left to `chrono`.

use vstd::prelude::*;
use crate::error::ParseError;
use crate::text::{
    chars_of, digits_only, has_char, is_digit, is_digits, other_than, string_of, without,
    without_final,
};
use chrono::{DateTime, Local, NaiveDateTime, TimeZone};

verus! {

/// The first second that the calendar reaches: the start of the year -262143.
pub const MIN_TIMESTAMP: i64 = -8_334_601_228_800;

/// The last second that the calendar reaches: the end of the year 262142.
pub const MAX_TIMESTAMP: i64 = 8_210_266_876_799;

/// The number of seconds in a day.
pub const DAY: i64 = 86_400;

/// Whether the calendar reaches the second `seconds`.
pub open spec fn representable(seconds: int) -> bool {
    MIN_TIMESTAMP <= seconds <= MAX_TIMESTAMP
}

/// An instant and the offset of the zone it is shown in.
#[derive(Debug, Clone, Copy, PartialEq, Eq, Structural)]
pub struct Timestamp {
    /// Seconds since 1970-01-01 00:00:00 UTC.
    pub seconds: i64,
    /// Seconds that the zone is ahead of UTC.
    pub offset: i32,
}

/// A reading of the clock.
#[derive(Debug, Clone, Copy, PartialEq, Eq, Structural)]
pub struct Instant {
    /// Seconds since 1970-01-01 00:00:00 UTC.
    pub seconds: i64,
    /// Nanoseconds since the start of that second.
    pub nanos: u32,
}

/// A span of time in whole seconds.
#[derive(Debug, Clone, Copy, PartialEq, Eq, Structural)]
pub struct Duration {
    pub seconds: i64,
}

/// The zone in which timestamps are read.
#[derive(Debug, Clone, Copy, PartialEq, Eq, Structural)]
pub enum Zone {
    /// The zone of the machine, with its changes of offset over the years.
    Local,
    /// A zone that is always the given number of seconds ahead of UTC.
    Fixed(i32),
}

impl Timestamp {
    /// What a clock on the wall of the zone shows, as seconds since
    /// 1970-01-01 00:00:00 on that clock.
    pub open spec fn wall_clock(self) -> int {
        self.seconds + self.offset
    }

    /// The instant and its wall-clock reading lie within the calendar, and
    /// the offset is less than a day.
    pub open spec fn wf(self) -> bool {
        &&& representable(self.seconds as int)
        &&& representable(self.wall_clock())
        &&& -DAY < self.offset < DAY
    }

    /// The timestamp of the given instant and offset, if that is well formed.
    pub fn new(seconds: i64, offset: i32) -> (r: Option<Timestamp>)
        ensures
            r == if (Timestamp { seconds, offset }).wf() {
                Some(Timestamp { seconds, offset })
            } else {
                None::<Timestamp>
            },
    {
        if seconds < MIN_TIMESTAMP || seconds > MAX_TIMESTAMP {
            return None;
        }
        let wall: i64 = seconds + offset as i64;
        if wall < MIN_TIMESTAMP || wall > MAX_TIMESTAMP {
            return None;
        }
        if offset as i64 <= -DAY || offset as i64 >= DAY {
            return None;
        }
        Some(Timestamp { seconds, offset })
    }

    /// Whether the timestamp is well formed.
    pub fn is_wf(&self) -> (r: bool)
        ensures
            r == self.wf(),
    {
        Timestamp::new(self.seconds, self.offset).is_some()
    }
}

impl Duration {
    /// The empty span.
    pub fn zero() -> (r: Duration)
        ensures
            r.seconds == 0,
    {
        Duration { seconds: 0 }
    }

    /// The span of `days` days, which must count no more milliseconds than
    /// fit in 64 bits.
    pub fn days(days: i64) -> (r: Duration)
        requires
            -106_751_991_167 <= days <= 106_751_991_167,
        ensures
            r.seconds == days * DAY,
    {
        Duration { seconds: days * DAY }
    }
}

/// The pattern by which the digits of a feed timestamp are read.
pub open spec fn digits_pattern() -> Seq<char> {
    "%Y%m%d%H%M%S"@
}

/// The pattern by which the start of an event is shown.
pub open spec fn date_pattern() -> Seq<char> {
    "%Y-%m-%d, %H:%M"@
}

/// The pattern by which the end of an event is shown.
pub open spec fn time_pattern() -> Seq<char> {
    "%H:%M"@
}

/// The calendar time that `text` holds when read by `pattern`, as seconds
/// since 1970-01-01 00:00:00 on the same clock; `None` where `text` does not
/// match the pattern or names no time of the calendar.
pub uninterp spec fn naive_timestamp(text: Seq<char>, pattern: Seq<char>) -> Option<i64>;

/// The text that shows the wall-clock second `wall_clock` by `pattern`;
/// `None` where the calendar does not reach that second.
pub uninterp spec fn wall_clock_text(wall_clock: i64, pattern: Seq<char>) -> Option<Seq<char>>;

/// Calls `chrono::NaiveDateTime::parse_from_str`, which reads a date and time
/// from `text` by the strftime pattern `pattern`, and takes the result's
/// seconds since 1970-01-01 00:00:00 with `timestamp`. A text or a pattern
/// that cannot be read gives `None`. The result is named `naive_timestamp`.
#[verifier::external_body]
fn parse_naive(text: &str, pattern: &str) -> (r: Option<i64>)
    ensures
        r == naive_timestamp(text@, pattern@),
{
    NaiveDateTime::parse_from_str(text, pattern).ok().map(|t| t.and_utc().timestamp())
}

/// Calls `chrono::DateTime::from_timestamp` and `NaiveDateTime::format` with
/// one of the two display patterns. `from_timestamp` gives a value for every
/// second from the first of the year -262143 to the last of the year 262142,
/// and both patterns hold only date and time fields, so that the formatting
/// cannot fail. The result is named `wall_clock_text`.
#[verifier::external_body]
fn format_wall_clock(wall_clock: i64, pattern: &str) -> (r: Option<String>)
    requires
        pattern@ == date_pattern() || pattern@ == time_pattern(),
    ensures
        match r {
            Some(text) => wall_clock_text(wall_clock, pattern@) == Some(text@),
            None => wall_clock_text(wall_clock, pattern@) is None,
        },
        representable(wall_clock as int) ==> r is Some,
{
    DateTime::from_timestamp(wall_clock, 0).map(|t| t.naive_utc().format(pattern).to_string())
}

/// Calls `chrono::Local.timestamp_opt`, which places an instant in the
/// machine's zone, and reads the offset that the zone has then. Nothing is
/// claimed of the result: it depends on the machine.
#[verifier::external_body]
fn local_offset_at(instant: i64) -> Option<i32> {
    Local.timestamp_opt(instant, 0).single().map(|t| t.offset().local_minus_utc())
}

/// Calls `chrono::Local.from_local_datetime`, which looks for the instant at
/// which the machine's zone shows the given wall-clock time, and reads the
/// offset that the zone has then; `None` where the zone shows that time
/// twice or never. Nothing is claimed of the result: it depends on the
/// machine.
#[verifier::external_body]
fn local_offset_of_wall_clock(wall_clock: i64) -> Option<i32> {
    let naive = DateTime::from_timestamp(wall_clock, 0)?.naive_utc();
    Local.from_local_datetime(&naive).single().map(|t| t.offset().local_minus_utc())
}

/// Calls `chrono::Local::now`, the current time of the system clock. Nothing
/// is claimed of the result.
#[verifier::external_body]
pub(crate) fn clock() -> Instant {
    let now = Local::now();
    Instant { seconds: now.timestamp(), nanos: now.timestamp_subsec_nanos() }
}

impl Zone {
    /// The offset of the zone at `instant`. A fixed zone has its one offset;
    /// the machine's zone is asked.
    pub fn offset_at(&self, instant: i64) -> (r: Option<i32>)
        ensures
            *self matches Zone::Fixed(offset) ==> r == Some(offset),
    {
        match self {
            Zone::Fixed(offset) => Some(*offset),
            Zone::Local => local_offset_at(instant),
        }
    }

    /// The offset of the zone when its wall clock shows `wall_clock`, where
    /// it shows that time exactly once. A fixed zone has its one offset; the
    /// machine's zone is asked.
    pub fn offset_of_wall_clock(&self, wall_clock: i64) -> (r: Option<i32>)
        ensures
            *self matches Zone::Fixed(offset) ==> r == Some(offset),
    {
        match self {
            Zone::Fixed(offset) => Some(*offset),
            Zone::Local => local_offset_of_wall_clock(wall_clock),
        }
    }
}

/// The digits of a feed timestamp: the text without a `Z` at its end and
/// without any `T`.
pub open spec fn digits_of(text: Seq<char>) -> Seq<char> {
    without(without_final(text, 'Z'), 'T')
}

/// The calendar time that a feed timestamp names, before any zone is
/// applied. The text must hold a `T`. A `Z` that ends the text is dropped,
/// and so is every `T`; what is left must be fourteen digits, and these are
/// read as year, month, day, hour, minute and second.
pub open spec fn naive_reading(text: Seq<char>) -> Result<i64, ParseError> {
    if !text.contains('T') {
        Err(ParseError::TimestampWithoutMarker)
    } else if !is_digits(digits_of(text), 14) {
        Err(ParseError::TimestampUnreadable)
    } else {
        match naive_timestamp(digits_of(text), digits_pattern()) {
            Some(naive) => Ok(naive),
            None => Err(ParseError::TimestampUnreadable),
        }
    }
}

/// A feed timestamp that reads is made of fourteen digits, at least one
/// `T` and nothing else, but for a `Z` that may end it. So a text with a
/// `Z` inside it, a sign, a space or a letter does not read.
pub proof fn lemma_reading_form(text: Seq<char>)
    requires
        naive_reading(text) is Ok,
    ensures
        text.contains('T'),
        forall|i: int|
            0 <= i < text.len() - 1 ==> is_digit(#[trigger] text[i]) || text[i] == 'T',
        text.len() > 0,
        is_digit(text.last()) || text.last() == 'T' || text.last() == 'Z',
{
    let body = without_final(text, 'Z');
    let digits = digits_of(text);
    assert(text.len() > 0) by {
        let k = choose|k: int| 0 <= k < text.len() && text[k] == 'T';
    }
    assert forall|i: int| 0 <= i < body.len() implies is_digit(#[trigger] body[i]) || body[i]
        == 'T' by {
        if body[i] != 'T' {
            body.lemma_filter_contains(other_than('T'), i);
            let k = choose|k: int| 0 <= k < digits.len() && digits[k] == body[i];
            assert(is_digit(digits[k]));
        }
    }
    assert forall|i: int| 0 <= i < text.len() - 1 implies is_digit(#[trigger] text[i]) || text[i]
        == 'T' by {
        assert(body[i] == text[i]);
    }
    if body.len() == text.len() {
        assert(body[text.len() - 1] == text.last());
    }
}

/// The instant of a feed timestamp: the calendar time `naive` is taken as
/// wall-clock time of a zone that then has the offset `wall`, and the result
/// is moved forward by `epoch`, the offset that the zone had at the start of
/// 1970. `None` where an offset is missing or the calendar is left.
pub open spec fn shifted(naive: i64, wall: Option<i32>, epoch: Option<i32>) -> Option<i64> {
    match (wall, epoch) {
        (Some(w), Some(e)) => if representable(naive - w) && representable(naive - w + e) {
            Some((naive - w + e) as i64)
        } else {
            None
        },
        _ => None,
    }
}

/// The timestamp of a feed entry, given the three offsets of the zone that
/// bear on it: `wall` when the zone shows `naive`, `epoch` at the start of
/// 1970, and `shown` at the instant that results.
pub open spec fn located(
    naive: i64,
    wall: Option<i32>,
    epoch: Option<i32>,
    shown: Option<i32>,
) -> Result<Timestamp, ParseError> {
    match (shifted(naive, wall, epoch), shown) {
        (Some(seconds), Some(offset)) => if (Timestamp { seconds, offset }).wf() {
            Ok(Timestamp { seconds, offset })
        } else {
            Err(ParseError::TimestampUnresolved)
        },
        _ => Err(ParseError::TimestampUnresolved),
    }
}

/// The offset by which a reading is moved forward, given the offset that
/// the zone had at the start of 1970: that offset where the shift is on,
/// none where it is off.
pub open spec fn applied(epoch: Option<i32>, shift: bool) -> Option<i32> {
    if shift {
        epoch
    } else {
        Some(0i32)
    }
}

/// What reading the feed timestamp `text` in `zone` may give. In a fixed
/// zone the result is determined; in the machine's zone it is the timestamp
/// located by whatever offsets the machine reports.
pub open spec fn date_outcome(
    text: Seq<char>,
    zone: Zone,
    shift: bool,
    r: Result<Timestamp, ParseError>,
) -> bool {
    match naive_reading(text) {
        Err(e) => r == Err::<Timestamp, ParseError>(e),
        Ok(naive) => match zone {
            Zone::Fixed(o) => r == located(naive, Some(o), applied(Some(o), shift), Some(o)),
            Zone::Local => exists|wall: Option<i32>, epoch: Option<i32>, shown: Option<i32>|
                r == located(naive, wall, applied(epoch, shift), shown),
        },
    }
}

/// The date cell of an event: the day and minute at which it starts and the
/// minute at which it ends, both as the wall clock shows them, joined by a
/// hyphen. The day of the end is not shown.
pub open spec fn date_cell(from: Timestamp, to: Timestamp) -> Seq<char> {
    wall_clock_text(from.wall_clock() as i64, date_pattern())->0 + "-"@ + wall_clock_text(
        to.wall_clock() as i64,
        time_pattern(),
    )->0
}

/// In a fixed zone a feed timestamp is shown later than it reads by the
/// zone's offset: the instant is the calendar time itself taken as UTC, and
/// the wall clock is ahead of it by the offset. This is owed wherever the
/// calendar reaches the times involved.
pub proof fn lemma_fixed_zone_shift(naive: i64, offset: i32)
    ensures
        located(naive, Some(offset), Some(offset), Some(offset)) == if representable(
            naive - offset,
        ) && (Timestamp { seconds: naive, offset }).wf() {
            Ok::<Timestamp, ParseError>(Timestamp { seconds: naive, offset })
        } else {
            Err::<Timestamp, ParseError>(ParseError::TimestampUnresolved)
        },
        (Timestamp { seconds: naive, offset }).wall_clock() == naive + offset,
{
}

/// With the shift off, a feed timestamp is shown in a fixed zone as it
/// reads: the wall clock at the instant found shows the calendar time of the
/// feed.
pub proof fn lemma_fixed_zone_unshifted(naive: i64, offset: i32)
    ensures
        located(naive, Some(offset), Some(0i32), Some(offset)) == if (Timestamp {
            seconds: (naive - offset) as i64,
            offset,
        }).wf() && representable(naive - offset) {
            Ok::<Timestamp, ParseError>(Timestamp { seconds: (naive - offset) as i64, offset })
        } else {
            Err::<Timestamp, ParseError>(ParseError::TimestampUnresolved)
        },
        representable(naive - offset) ==> (Timestamp {
            seconds: (naive - offset) as i64,
            offset,
        }).wall_clock() == naive,
{
}

/// Whatever the offsets, a timestamp that was located is well formed, is
/// shown with the third offset, and differs from the calendar time by the
/// second offset less the first.
pub proof fn lemma_located_wf(
    naive: i64,
    wall: Option<i32>,
    epoch: Option<i32>,
    shown: Option<i32>,
)
    ensures
        located(naive, wall, epoch, shown) matches Ok(t) ==> t.wf() && wall is Some && epoch
            is Some && shown == Some(t.offset) && t.seconds == naive - wall->0 + epoch->0,
        located(naive, wall, epoch, shown) matches Err(e) ==> e == ParseError::TimestampUnresolved,
{
}

/// A timestamp that reading a feed timestamp may give is well formed.
pub proof fn lemma_reading_wf(
    text: Seq<char>,
    zone: Zone,
    shift: bool,
    r: Result<Timestamp, ParseError>,
)
    requires
        date_outcome(text, zone, shift, r),
    ensures
        r matches Ok(t) ==> t.wf(),
{
}

/// The characters among the first `end` of `chars` that are other than `a`.
fn strip(chars: &Vec<char>, end: usize, a: char) -> (r: Vec<char>)
    requires
        end <= chars.len(),
    ensures
        r@ == without(chars@.take(end as int), a),
{
    let ghost keep = other_than(a);
    let ghost head = chars@.take(end as int);
    let mut out: Vec<char> = Vec::new();
    let mut i: usize = 0;
    assert(head.take(0) =~= Seq::<char>::empty());
    while i < end
        invariant
            i <= end <= chars.len(),
            keep == other_than(a),
            head == chars@.take(end as int),
            out@ == head.take(i as int).filter(keep),
        decreases end - i,
    {
        proof {
            head.lemma_take_succ_push(i as int);
            head.take(i as int).lemma_filter_push(head[i as int], keep);
        }
        let c = chars[i];
        if c != a {
            out.push(c);
        }
        i += 1;
    }
    assert(head.take(i as int) =~= head);
    out
}

/// Reads the calendar time of a feed timestamp of the form
/// `YYYYMMDDTHHMMSS`, with or without a `Z` at its end.
pub fn read_naive(text: &str) -> (r: Result<i64, ParseError>)
    ensures
        r == naive_reading(text@),
{
    if !has_char(text, 'T') {
        return Err(ParseError::TimestampWithoutMarker);
    }
    let chars = chars_of(text);
    let n = chars.len();
    let end: usize = if n > 0 && chars[n - 1] == 'Z' {
        n - 1
    } else {
        n
    };
    assert(chars@.take(end as int) =~= without_final(text@, 'Z'));
    let digits = strip(&chars, end, 'T');
    if !digits_only(&digits, 14) {
        return Err(ParseError::TimestampUnreadable);
    }
    let written = string_of(&digits, 0, digits.len());
    assert(written@ =~= digits@);
    match parse_naive(written.as_str(), "%Y%m%d%H%M%S") {
        Some(naive) => Ok(naive),
        None => Err(ParseError::TimestampUnreadable),
    }
}

/// Computes the instant of a feed timestamp from its calendar time and the
/// two offsets that decide it.
pub fn shift_instant(naive: i64, wall: Option<i32>, epoch: Option<i32>) -> (r: Option<i64>)
    ensures
        r == shifted(naive, wall, epoch),
{
    match (wall, epoch) {
        (Some(w), Some(e)) => {
            let local: i128 = naive as i128 - w as i128;
            let moved: i128 = local + e as i128;
            if local < MIN_TIMESTAMP as i128 || local > MAX_TIMESTAMP as i128 {
                None
            } else if moved < MIN_TIMESTAMP as i128 || moved > MAX_TIMESTAMP as i128 {
                None
            } else {
                Some(moved as i64)
            }
        },
        _ => None,
    }
}

/// Builds the timestamp of a feed entry from its calendar time and the
/// offsets of its zone.
pub fn locate(naive: i64, wall: Option<i32>, epoch: Option<i32>, shown: Option<i32>) -> (r: Result<
    Timestamp,
    ParseError,
>)
    ensures
        r == located(naive, wall, epoch, shown),
{
    match (shift_instant(naive, wall, epoch), shown) {
        (Some(seconds), Some(offset)) => match Timestamp::new(seconds, offset) {
            Some(t) => Ok(t),
            None => Err(ParseError::TimestampUnresolved),
        },
        _ => Err(ParseError::TimestampUnresolved),
    }
}

/// Reads a feed timestamp in the given zone.
///
/// The calendar time of the text is taken as wall-clock time of the zone.
/// With `shift` set, the instant found is then moved forward by the offset
/// that the zone had at the start of 1970. A feed that gives UTC without
/// saying so is shown right by the shift; a feed that gives local time is
/// shown late by the offset, and is shown right with the shift off.
pub fn parse_date_in(text: &str, zone: &Zone, shift: bool) -> (r: Result<Timestamp, ParseError>)
    ensures
        date_outcome(text@, *zone, shift, r),
        r matches Ok(t) ==> t.wf(),
{
    match read_naive(text) {
        Err(e) => Err(e),
        Ok(naive) => {
            let wall = zone.offset_of_wall_clock(naive);
            let epoch = if shift {
                zone.offset_at(0)
            } else {
                Some(0)
            };
            let shown = match shift_instant(naive, wall, epoch) {
                Some(instant) => zone.offset_at(instant),
                None => None,
            };
            assert(applied(epoch, shift) == epoch);
            locate(naive, wall, epoch, shown)
        },
    }
}

/// Reads a feed timestamp in the machine's zone, with the shift on.
pub fn parse_date(text: &str) -> (r: Result<Timestamp, ParseError>)
    ensures
        date_outcome(text@, Zone::Local, true, r),
        r matches Ok(t) ==> t.wf(),
{
    parse_date_in(text, &Zone::Local, true)
}

/// Joins the text of a start and the text of an end with a hyphen.
pub fn join_times(start: String, end: &str) -> (r: String)
    ensures
        r@ == start@ + "-"@ + end@,
{
    let mut cell = start;
    cell.append("-");
    cell.append(end);
    cell
}

/// Writes the date cell of an event that starts at `from` and ends at `to`.
pub fn format_date(from: Timestamp, to: Timestamp) -> (r: String)
    requires
        from.wf(),
        to.wf(),
    ensures
        r@ == date_cell(from, to),
{
    let start = format_wall_clock(from.seconds + from.offset as i64, "%Y-%m-%d, %H:%M");
    let end = format_wall_clock(to.seconds + to.offset as i64, "%H:%M");
    join_times(start.unwrap(), end.unwrap().as_str())
}

} // verus!
