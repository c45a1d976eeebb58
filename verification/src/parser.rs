//! The calendar-feed parser.
//!
//! A feed is a calendar in the text-line format of RFC 5545. The `ical`
//! crate reads its lines and components; this module turns each `VEVENT`
//! into an [`Event`] by its `DTSTART`, `DTEND` and `SUMMARY` properties. The
//! summary has the shape `<name> <kind> s. <location>`.

use vstd::prelude::*;
use crate::error::ParseError;
use crate::event::{all_wf, Event, EventView};
use crate::text::{
    chars_of, contains, cut_before, first_occurrence, is_first_occurrence,
    lemma_first_occurrence_exists, lemma_first_occurrence_unique, occurs_at, same_text,
    split_once, string_of,
};
use crate::time::{
    applied, date_outcome, lemma_reading_wf, located, naive_reading, parse_date_in, Timestamp,
    Zone,
};
use ical::parser::ParserError;
use ical::IcalParser;

verus! {

/// The error with which `ical` refuses a feed.
#[verifier::external_type_specification]
#[verifier::external_body]
pub struct ExParserError(ical::parser::ParserError);

/// A property line of a feed entry, by what the parser reads of it: its
/// name and its value, if it has one.
#[derive(Debug, Clone, PartialEq, Eq)]
pub struct Property {
    pub name: String,
    pub value: Option<String>,
}

/// What the contracts say of a [`Property`].
pub struct PropertyView {
    pub name: Seq<char>,
    pub value: Option<Seq<char>>,
}

/// What a feed holds.
pub enum Feed {
    /// No calendar: there is no line to read.
    Empty,
    /// Something that is no well-formed calendar.
    Invalid,
    /// A calendar, by the properties of each of its events in feed order.
    Entries(Seq<Seq<PropertyView>>),
}

impl View for Property {
    type V = PropertyView;

    open spec fn view(&self) -> PropertyView {
        PropertyView {
            name: self.name@,
            value: match self.value {
                Some(v) => Some(v@),
                None => None,
            },
        }
    }
}

/// The views of the properties of one entry.
pub open spec fn property_views(props: Seq<Property>) -> Seq<PropertyView> {
    props.map_values(|p: Property| p@)
}

/// The views of the entries of a calendar.
pub open spec fn entry_views(entries: Seq<Vec<Property>>) -> Seq<Seq<PropertyView>> {
    entries.map_values(|e: Vec<Property>| property_views(e@))
}

/// The view of an event or of the reason why there is none.
pub open spec fn event_result_view(r: Result<Event, ParseError>) -> Result<EventView, ParseError> {
    match r {
        Ok(event) => Ok(event@),
        Err(e) => Err(e),
    }
}

/// The view of a list of events or of the reason why there is none.
pub open spec fn events_result_view(r: Result<Vec<Event>, ParseError>) -> Result<
    Seq<EventView>,
    ParseError,
> {
    match r {
        Ok(events) => Ok(events@.map_values(|e: Event| e@)),
        Err(e) => Err(e),
    }
}

/// The first calendar of a feed, as `ical` reads it.
pub uninterp spec fn first_calendar(bytes: Seq<u8>) -> Feed;

/// The text that stands between the kind and the location in a summary.
pub open spec fn separator() -> Seq<char> {
    " s. "@
}

/// The text that stands between the name and the kind in a summary.
pub open spec fn space() -> Seq<char> {
    " "@
}

/// The name of the property that holds the start of an event.
pub open spec fn start_name() -> Seq<char> {
    "DTSTART"@
}

/// The name of the property that holds the end of an event.
pub open spec fn end_name() -> Seq<char> {
    "DTEND"@
}

/// The name of the property that holds the summary of an event.
pub open spec fn summary_name() -> Seq<char> {
    "SUMMARY"@
}

/// The value of the last property called `name`; `None` where no property
/// has that name or the last one that has it holds no value.
pub open spec fn picked(props: Seq<PropertyView>, name: Seq<char>) -> Option<Seq<char>>
    decreases props.len(),
{
    if props.len() == 0 {
        None
    } else if props.last().name == name {
        props.last().value
    } else {
        picked(props.drop_last(), name)
    }
}

/// The name, kind and location that a summary holds: the summary is cut at
/// its first separator into a left part and the location, and the left part
/// is cut at its first space into name and kind. Nothing is trimmed.
pub open spec fn summary_parts(summary: Seq<char>) -> Result<
    (Seq<char>, Seq<char>, Seq<char>),
    ParseError,
> {
    match split_once(summary, separator()) {
        None => Err(ParseError::SummaryWithoutLocation),
        Some((left, location)) => match split_once(left, space()) {
            None => Err(ParseError::SummaryWithoutKind),
            Some((name, kind)) => Ok((name, kind, location)),
        },
    }
}

/// The event that an entry gives, by what became of its start, its end and
/// its summary. A property that is missing is `None`. The start is looked at
/// first, then the end, then the summary; the first that fails decides.
pub open spec fn assembled(
    start: Option<Result<Timestamp, ParseError>>,
    end: Option<Result<Timestamp, ParseError>>,
    summary: Option<Seq<char>>,
) -> Result<EventView, ParseError> {
    match start {
        None => Err(ParseError::MissingStart),
        Some(Err(e)) => Err(e),
        Some(Ok(from)) => match end {
            None => Err(ParseError::MissingEnd),
            Some(Err(e)) => Err(e),
            Some(Ok(to)) => match summary {
                None => Err(ParseError::MissingSummary),
                Some(text) => match summary_parts(text) {
                    Err(e) => Err(e),
                    Ok((name, kind, location)) => Ok(EventView { name, kind, location, from, to }),
                },
            },
        },
    }
}

/// What reading the timestamp property `text` in `zone` may give: nothing
/// where the property is missing, else a possible reading of its value.
pub open spec fn property_outcome(
    text: Option<Seq<char>>,
    zone: Zone,
    shift: bool,
    r: Option<Result<Timestamp, ParseError>>,
) -> bool {
    match text {
        None => r is None,
        Some(t) => r is Some && date_outcome(t, zone, shift, r->0),
    }
}

/// What reading one entry in `zone` may give.
pub open spec fn entry_outcome(
    props: Seq<PropertyView>,
    zone: Zone,
    shift: bool,
    r: Result<EventView, ParseError>,
) -> bool {
    exists|start: Option<Result<Timestamp, ParseError>>, end: Option<Result<Timestamp, ParseError>>|
        {
            &&& property_outcome(picked(props, start_name()), zone, shift, start)
            &&& property_outcome(picked(props, end_name()), zone, shift, end)
            &&& r == #[trigger] assembled(start, end, picked(props, summary_name()))
        }
}

/// Reading the entry in `zone` may give an event.
pub open spec fn entry_may_succeed(props: Seq<PropertyView>, zone: Zone, shift: bool) -> bool {
    exists|event: EventView| entry_outcome(props, zone, shift, Ok(event))
}

/// What reading the entries of a calendar in `zone` may give: an event for
/// every entry, in feed order, or the failure of the first entry that fails.
pub open spec fn feed_outcome(
    entries: Seq<Seq<PropertyView>>,
    zone: Zone,
    shift: bool,
    r: Result<Seq<EventView>, ParseError>,
) -> bool {
    match r {
        Ok(events) => {
            &&& events.len() == entries.len()
            &&& forall|i: int|
                0 <= i < entries.len() ==> entry_outcome(
                    #[trigger] entries[i],
                    zone,
                    shift,
                    Ok(events[i]),
                )
        },
        Err(e) => exists|k: int|
            {
                &&& 0 <= k < entries.len()
                &&& entry_outcome(#[trigger] entries[k], zone, shift, Err(e))
                &&& forall|i: int|
                    0 <= i < k ==> entry_may_succeed(#[trigger] entries[i], zone, shift)
            },
    }
}

/// What reading a feed in `zone` may give.
pub open spec fn parse_outcome(
    bytes: Seq<u8>,
    zone: Zone,
    shift: bool,
    r: Result<Seq<EventView>, ParseError>,
) -> bool {
    match first_calendar(bytes) {
        Feed::Empty => r == Err::<Seq<EventView>, ParseError>(ParseError::EmptyFeed),
        Feed::Invalid => r == Err::<Seq<EventView>, ParseError>(ParseError::InvalidFeed),
        Feed::Entries(entries) => feed_outcome(entries, zone, shift, r),
    }
}

/// The reading of a timestamp property in the zone that is always `offset`
/// ahead of UTC.
pub open spec fn fixed_reading(text: Option<Seq<char>>, offset: i32, shift: bool) -> Option<
    Result<Timestamp, ParseError>,
> {
    match text {
        None => None,
        Some(t) => Some(
            match naive_reading(t) {
                Err(e) => Err(e),
                Ok(naive) => located(
                    naive,
                    Some(offset),
                    applied(Some(offset), shift),
                    Some(offset),
                ),
            },
        ),
    }
}

/// The event that an entry gives in the zone that is always `offset` ahead
/// of UTC.
pub open spec fn fixed_entry(props: Seq<PropertyView>, offset: i32, shift: bool) -> Result<
    EventView,
    ParseError,
> {
    assembled(
        fixed_reading(picked(props, start_name()), offset, shift),
        fixed_reading(picked(props, end_name()), offset, shift),
        picked(props, summary_name()),
    )
}

/// The separator stands in the summary exactly once.
pub open spec fn separated_once(summary: Seq<char>) -> bool {
    exists|i: int|
        #[trigger] occurs_at(summary, separator(), i) && forall|j: int|
            occurs_at(summary, separator(), j) ==> j == i
}

/// The separator stands in the summary more than once.
pub open spec fn separated_twice(summary: Seq<char>) -> bool {
    exists|i: int, j: int|
        i != j && #[trigger] occurs_at(summary, separator(), i) && #[trigger] occurs_at(
            summary,
            separator(),
            j,
        )
}

/// A summary in which the separator does not stand twice gives its three
/// parts if and only if the separator stands in it once and a space stands
/// before the separator. Without the separator it fails for want of a
/// location; without the space, for want of a kind.
pub proof fn lemma_summary_shape(summary: Seq<char>)
    requires
        !separated_twice(summary),
    ensures
        summary_parts(summary) is Ok <==> separated_once(summary) && contains(
            summary.take(first_occurrence(summary, separator())),
            space(),
        ),
        !separated_once(summary) ==> summary_parts(summary) == Err::<
            (Seq<char>, Seq<char>, Seq<char>),
            ParseError,
        >(ParseError::SummaryWithoutLocation),
        separated_once(summary) && !contains(
            summary.take(first_occurrence(summary, separator())),
            space(),
        ) ==> summary_parts(summary) == Err::<(Seq<char>, Seq<char>, Seq<char>), ParseError>(
            ParseError::SummaryWithoutKind,
        ),
{
    if contains(summary, separator()) {
        let i = choose|i: int| occurs_at(summary, separator(), i);
        assert forall|j: int| occurs_at(summary, separator(), j) implies j == i by {
            if j != i {
                assert(separated_twice(summary));
            }
        }
        assert(separated_once(summary));
    }
}

/// The parts of a summary may be empty, and it is the summary's shape that
/// decides: the name is empty exactly where the summary begins with a
/// space, the kind where the summary's first space is the one that opens
/// the separator's place, and the location where the summary ends with its
/// first separator.
pub proof fn lemma_parts_nonempty(summary: Seq<char>)
    requires
        summary_parts(summary) is Ok,
    ensures
        match summary_parts(summary) {
            Ok((name, kind, location)) => {
                &&& name.len() > 0 <==> summary[0] != ' '
                &&& kind.len() > 0 <==> first_occurrence(summary, space()) + 1
                    < first_occurrence(summary, separator())
                &&& location.len() > 0 <==> first_occurrence(summary, separator()) + 4
                    < summary.len()
            },
            Err(_) => true,
        },
{
    reveal_strlit(" s. ");
    reveal_strlit(" ");
    let i = first_occurrence(summary, separator());
    lemma_first_occurrence_exists(summary, separator());
    let left = summary.take(i);
    let j = first_occurrence(left, space());
    lemma_first_occurrence_exists(left, space());
    assert(left.subrange(j, j + 1)[0] == ' ');
    assert(summary.subrange(j, j + 1) =~= left.subrange(j, j + 1));
    assert forall|k: int| 0 <= k < j implies !occurs_at(summary, space(), k) by {
        if occurs_at(summary, space(), k) {
            assert(left.subrange(k, k + 1) =~= summary.subrange(k, k + 1));
            assert(occurs_at(left, space(), k));
        }
    }
    assert(is_first_occurrence(summary, space(), j));
    lemma_first_occurrence_unique(summary, space(), j);
    if j > 0 {
        if summary[0] == ' ' {
            assert(summary.subrange(0, 1) =~= space());
            assert(occurs_at(summary, space(), 0));
        }
    }
}

/// Every event that an entry gives holds two well-formed timestamps and the
/// three parts of the entry's summary. Its name, kind and location are
/// non-empty unless the summary begins with a space, has its first space
/// right before the separator, or ends with the separator.
pub proof fn lemma_parsed_event(
    props: Seq<PropertyView>,
    zone: Zone,
    shift: bool,
    event: EventView,
)
    requires
        entry_outcome(props, zone, shift, Ok(event)),
    ensures
        event.from.wf(),
        event.to.wf(),
        picked(props, summary_name()) is Some,
        summary_parts(picked(props, summary_name())->0) == Ok::<
            (Seq<char>, Seq<char>, Seq<char>),
            ParseError,
        >((event.name, event.kind, event.location)),
        ({
            let summary = picked(props, summary_name())->0;
            &&& event.name.len() > 0 <==> summary[0] != ' '
            &&& event.kind.len() > 0 <==> first_occurrence(summary, space()) + 1
                < first_occurrence(summary, separator())
            &&& event.location.len() > 0 <==> first_occurrence(summary, separator()) + 4
                < summary.len()
        }),
{
    let (start, end) = choose|
        start: Option<Result<Timestamp, ParseError>>,
        end: Option<Result<Timestamp, ParseError>>,
    |
        {
            &&& property_outcome(picked(props, start_name()), zone, shift, start)
            &&& property_outcome(picked(props, end_name()), zone, shift, end)
            &&& Ok::<EventView, ParseError>(event) == #[trigger] assembled(
                start,
                end,
                picked(props, summary_name()),
            )
        };
    lemma_reading_wf(picked(props, start_name())->0, zone, shift, start->0);
    lemma_reading_wf(picked(props, end_name())->0, zone, shift, end->0);
    lemma_parts_nonempty(picked(props, summary_name())->0);
}

/// A summary written as name, space, kind, separator and location reads
/// back as these three parts, provided that neither the name nor the kind
/// holds a space and the kind is not `s.`, which the separator would
/// swallow.
pub proof fn lemma_summary_round_trip(name: Seq<char>, kind: Seq<char>, location: Seq<char>)
    requires
        !name.contains(' '),
        !kind.contains(' '),
        kind != "s."@,
    ensures
        summary_parts(name + space() + kind + separator() + location) == Ok::<
            (Seq<char>, Seq<char>, Seq<char>),
            ParseError,
        >((name, kind, location)),
{
    reveal_strlit(" s. ");
    reveal_strlit(" ");
    reveal_strlit("s.");
    let summary = name + space() + kind + separator() + location;
    let n: int = name.len() as int;
    let at: int = n + 1 + kind.len();
    assert(summary.subrange(at, at + 4) =~= separator());
    assert forall|j: int| 0 <= j < at implies !occurs_at(summary, separator(), j) by {
        if occurs_at(summary, separator(), j) {
            let found = summary.subrange(j, j + 4);
            assert(found[0] == ' ' && found[1] == 's' && found[2] == '.' && found[3] == ' ');
            if j < name.len() {
                assert(name.contains(name[j]));
            } else if j > name.len() {
                assert(kind.contains(kind[j - name.len() - 1]));
            } else if kind.len() == 2 {
                assert(kind =~= "s."@);
            } else if kind.len() >= 3 {
                assert(kind.contains(kind[2]));
            }
        }
    }
    assert(is_first_occurrence(summary, separator(), at));
    lemma_first_occurrence_unique(summary, separator(), at);
    let left = summary.take(at);
    assert(left =~= name + space() + kind);
    assert(left.subrange(n, n + 1) =~= space());
    assert forall|j: int| 0 <= j < name.len() implies !occurs_at(left, space(), j) by {
        if occurs_at(left, space(), j) {
            assert(left.subrange(j, j + 1)[0] == ' ');
            assert(name.contains(name[j]));
        }
    }
    assert(is_first_occurrence(left, space(), n));
    lemma_first_occurrence_unique(left, space(), n);
    assert(left.take(n) =~= name);
    assert(left.skip(n + 1) =~= kind);
    assert(summary.skip(at + 4) =~= location);
}

/// The events of a list of readings: all of them in order, or the first
/// failure.
pub open spec fn collected(results: Seq<Result<EventView, ParseError>>) -> Result<
    Seq<EventView>,
    ParseError,
>
    decreases results.len(),
{
    if results.len() == 0 {
        Ok(Seq::<EventView>::empty())
    } else {
        match collected(results.drop_last()) {
            Err(e) => Err(e),
            Ok(events) => match results.last() {
                Err(e) => Err(e),
                Ok(event) => Ok(events.push(event)),
            },
        }
    }
}

/// The reading of each entry in the zone that is always `offset` ahead of
/// UTC.
pub open spec fn fixed_entries(entries: Seq<Seq<PropertyView>>, offset: i32, shift: bool) -> Seq<
    Result<EventView, ParseError>,
> {
    entries.map_values(|props: Seq<PropertyView>| fixed_entry(props, offset, shift))
}

/// What a feed gives in the zone that is always `offset` ahead of UTC.
pub open spec fn fixed_feed(bytes: Seq<u8>, offset: i32, shift: bool) -> Result<
    Seq<EventView>,
    ParseError,
> {
    match first_calendar(bytes) {
        Feed::Empty => Err(ParseError::EmptyFeed),
        Feed::Invalid => Err(ParseError::InvalidFeed),
        Feed::Entries(entries) => collected(fixed_entries(entries, offset, shift)),
    }
}

/// A failure among the first `k` readings is the failure of the whole list.
pub proof fn lemma_collected_failure(results: Seq<Result<EventView, ParseError>>, k: int)
    requires
        0 <= k <= results.len(),
        collected(results.take(k)) is Err,
    ensures
        collected(results) == collected(results.take(k)),
    decreases results.len() - k,
{
    if k < results.len() {
        assert(results.take(k + 1).drop_last() =~= results.take(k));
        lemma_collected_failure(results, k + 1);
    } else {
        assert(results.take(k) =~= results);
    }
}

/// Calls `ical::IcalParser::new` on the bytes and `next` on the parser once,
/// which reads the first calendar of the feed, and hands out the properties
/// of each of its events by name and value. The result is named
/// `first_calendar`: `Empty` where `next` gives nothing, `Invalid` where it
/// gives an error, the entries otherwise.
#[verifier::external_body]
fn read_calendar(bytes: &[u8]) -> (r: Option<Result<Vec<Vec<Property>>, ParserError>>)
    ensures
        match r {
            None => first_calendar(bytes@) is Empty,
            Some(Err(_)) => first_calendar(bytes@) is Invalid,
            Some(Ok(entries)) => first_calendar(bytes@) == Feed::Entries(entry_views(entries@)),
        },
{
    let calendar = IcalParser::new(bytes).next()?;
    Some(
        calendar.map(
            |c|
                c.events.into_iter().map(
                    |e|
                        e.properties.into_iter().map(
                            |p| Property { name: p.name, value: p.value },
                        ).collect(),
                ).collect(),
        ),
    )
}

/// The view of an optional text.
pub open spec fn optional_view(o: Option<&String>) -> Option<Seq<char>> {
    match o {
        Some(s) => Some(s@),
        None => None,
    }
}

/// Finds the value of the last property called `name`.
pub fn pick<'a>(props: &'a Vec<Property>, name: &str) -> (r: Option<&'a String>)
    ensures
        optional_view(r) == picked(property_views(props@), name@),
{
    let ghost all = property_views(props@);
    let mut i: usize = props.len();
    assert(all.take(i as int) =~= all);
    while i > 0
        invariant
            i <= props.len(),
            all == property_views(props@),
            picked(all, name@) == picked(all.take(i as int), name@),
        decreases i,
    {
        i -= 1;
        let prop = &props[i];
        assert(all.take(i + 1).last() == prop@);
        assert(all.take(i + 1).drop_last() =~= all.take(i as int));
        if same_text(prop.name.as_str(), name) {
            return prop.value.as_ref();
        }
    }
    None
}

/// Cuts a summary into name, kind and location.
///
/// The summary is cut at the first ` s. `; what follows is the location.
/// What precedes is cut at its first space into name and kind. A summary
/// without ` s. ` fails, and so does one with no space before it. The parts
/// are taken as they stand: none is trimmed, and a part may be empty.
pub fn split_summary(summary: &str) -> (r: Result<(String, String, String), ParseError>)
    ensures
        match r {
            Ok((name, kind, location)) => summary_parts(summary@) == Ok::<
                (Seq<char>, Seq<char>, Seq<char>),
                ParseError,
            >((name@, kind@, location@)),
            Err(e) => summary_parts(summary@) == Err::<
                (Seq<char>, Seq<char>, Seq<char>),
                ParseError,
            >(e),
        },
{
    let chars = chars_of(summary);
    let sep = chars_of(" s. ");
    let gap = chars_of(" ");
    assert(chars@.take(chars.len() as int) =~= chars@);
    match cut_before(&chars, &sep, chars.len()) {
        None => Err(ParseError::SummaryWithoutLocation),
        Some((left_end, location_start)) => {
            assert(chars@.take(left_end as int) =~= chars@.subrange(0, left_end as int));
            match cut_before(&chars, &gap, left_end) {
                None => Err(ParseError::SummaryWithoutKind),
                Some((name_end, kind_start)) => {
                    let name = string_of(&chars, 0, name_end);
                    let kind = string_of(&chars, kind_start, left_end);
                    let location = string_of(&chars, location_start, chars.len());
                    Ok((name, kind, location))
                },
            }
        },
    }
}

/// Builds the event of an entry from what became of its start, its end and
/// its summary.
pub fn assemble(
    start: Option<Result<Timestamp, ParseError>>,
    end: Option<Result<Timestamp, ParseError>>,
    summary: Option<&String>,
) -> (r: Result<Event, ParseError>)
    ensures
        event_result_view(r) == assembled(start, end, optional_view(summary)),
{
    let from = match start {
        None => {
            return Err(ParseError::MissingStart);
        },
        Some(Err(e)) => {
            return Err(e);
        },
        Some(Ok(from)) => from,
    };
    let to = match end {
        None => {
            return Err(ParseError::MissingEnd);
        },
        Some(Err(e)) => {
            return Err(e);
        },
        Some(Ok(to)) => to,
    };
    let text = match summary {
        None => {
            return Err(ParseError::MissingSummary);
        },
        Some(text) => text,
    };
    match split_summary(text.as_str()) {
        Err(e) => Err(e),
        Ok((name, kind, location)) => Ok(
            Event { event_name: name, event_type: kind, location, from, to },
        ),
    }
}

/// Reads a timestamp property, if the entry has it.
fn read_property(text: Option<&String>, zone: &Zone, shift: bool) -> (r: Option<
    Result<Timestamp, ParseError>,
>)
    ensures
        property_outcome(optional_view(text), *zone, shift, r),
        *zone matches Zone::Fixed(offset) ==> r == fixed_reading(optional_view(text), offset, shift),
        r matches Some(Ok(t)) ==> t.wf(),
{
    match text {
        None => None,
        Some(t) => Some(parse_date_in(t.as_str(), zone, shift)),
    }
}

/// Reads one entry of a feed.
pub fn read_entry(props: &Vec<Property>, zone: &Zone, shift: bool) -> (r: Result<
    Event,
    ParseError,
>)
    ensures
        entry_outcome(property_views(props@), *zone, shift, event_result_view(r)),
        *zone matches Zone::Fixed(offset) ==> event_result_view(r) == fixed_entry(
            property_views(props@),
            offset,
            shift,
        ),
        r matches Ok(event) ==> event.wf(),
{
    let start = read_property(pick(props, "DTSTART"), zone, shift);
    let end = read_property(pick(props, "DTEND"), zone, shift);
    let summary = pick(props, "SUMMARY");
    let r = assemble(start, end, summary);
    proof {
        let views = property_views(props@);
        assert(event_result_view(r) == assembled(start, end, picked(views, summary_name())));
    }
    r
}

/// Reads the entries of a calendar, in their order. The first entry that
/// fails, fails them all.
pub fn read_entries(entries: &Vec<Vec<Property>>, zone: &Zone, shift: bool) -> (r: Result<
    Vec<Event>,
    ParseError,
>)
    ensures
        feed_outcome(entry_views(entries@), *zone, shift, events_result_view(r)),
        *zone matches Zone::Fixed(offset) ==> events_result_view(r) == collected(
            fixed_entries(entry_views(entries@), offset, shift),
        ),
        r matches Ok(events) ==> all_wf(events@),
{
    let ghost feed = entry_views(entries@);
    let mut events: Vec<Event> = Vec::new();
    let mut i: usize = 0;
    assert(events@.map_values(|e: Event| e@) =~= Seq::<EventView>::empty());
    while i < entries.len()
        invariant
            i <= entries.len(),
            feed == entry_views(entries@),
            events.len() == i,
            forall|j: int|
                0 <= j < i ==> entry_outcome(#[trigger] feed[j], *zone, shift, Ok(events[j]@)),
            forall|j: int| 0 <= j < i ==> (#[trigger] events[j]).wf(),
            *zone matches Zone::Fixed(offset) ==> collected(
                fixed_entries(feed, offset, shift).take(i as int),
            ) == Ok::<Seq<EventView>, ParseError>(events@.map_values(|e: Event| e@)),
        decreases entries.len() - i,
    {
        assert(feed[i as int] == property_views(entries[i as int]@));
        let ghost before = events@;
        proof {
            if let Zone::Fixed(offset) = *zone {
                let results = fixed_entries(feed, offset, shift);
                assert(results.take(i + 1).drop_last() =~= results.take(i as int));
                assert(results.take(i + 1).last() == fixed_entry(feed[i as int], offset, shift));
            }
        }
        match read_entry(&entries[i], zone, shift) {
            Err(e) => {
                assert(entry_outcome(feed[i as int], *zone, shift, Err(e)));
                assert forall|j: int| 0 <= j < i implies entry_may_succeed(
                    #[trigger] feed[j],
                    *zone,
                    shift,
                ) by {
                    assert(entry_outcome(feed[j], *zone, shift, Ok(events[j]@)));
                }
                assert(feed_outcome(feed, *zone, shift, Err(e)));
                proof {
                    if let Zone::Fixed(offset) = *zone {
                        lemma_collected_failure(fixed_entries(feed, offset, shift), i + 1);
                    }
                }
                return Err(e);
            },
            Ok(event) => {
                events.push(event);
                assert(events@.map_values(|e: Event| e@) =~= before.map_values(|e: Event| e@).push(
                    event@,
                ));
            },
        }
        i += 1;
    }
    assert(feed_outcome(feed, *zone, shift, events_result_view(Ok(events))));
    proof {
        if let Zone::Fixed(offset) = *zone {
            let results = fixed_entries(feed, offset, shift);
            assert(results.take(i as int) =~= results);
        }
    }
    Ok(events)
}

/// Reads a calendar feed in the given zone.
///
/// The feed's first calendar is read, and each of its events becomes an
/// [`Event`], in feed order and unsorted. Of an entry only `DTSTART`,
/// `DTEND` and `SUMMARY` are looked at; where one occurs more than once, the
/// last counts. The first entry that fails, fails the whole feed. With
/// `shift` set, every timestamp is moved forward by the zone's offset, as
/// [`parse_date_in`] describes.
pub fn parse_ical_in(buf: &[u8], zone: &Zone, shift: bool) -> (r: Result<Vec<Event>, ParseError>)
    ensures
        parse_outcome(buf@, *zone, shift, events_result_view(r)),
        *zone matches Zone::Fixed(offset) ==> events_result_view(r) == fixed_feed(
            buf@,
            offset,
            shift,
        ),
        r matches Ok(events) ==> all_wf(events@),
{
    match read_calendar(buf) {
        None => Err(ParseError::EmptyFeed),
        Some(Err(_)) => Err(ParseError::InvalidFeed),
        Some(Ok(entries)) => read_entries(&entries, zone, shift),
    }
}

/// Reads a calendar feed in the machine's zone, with the shift on.
pub fn parse_ical(buf: &[u8]) -> (r: Result<Vec<Event>, ParseError>)
    ensures
        parse_outcome(buf@, Zone::Local, true, events_result_view(r)),
        r matches Ok(events) ==> all_wf(events@),
{
    parse_ical_in(buf, &Zone::Local, true)
}

} // verus!
