//! The table in which the timetable is shown.
//!
//! The table has five columns: a running number, the course, the kind of
//! class, the room and the date. This module chooses the events that are
//! shown, writes the cells and fills a `prettytable` table with them;
//! printing the table is left to the caller.

use vstd::prelude::*;
use crate::error::ParseError;
use crate::event::{all_wf, filter_events_at, upcoming, Event, EventView};
use crate::parser::{events_result_view, parse_ical_in, parse_outcome};
use crate::text::{decimal, decimal_string, has_char};
use crate::time::{clock, date_cell, format_date, Instant, Zone};
use prettytable::{Cell, Row, Table};

verus! {

/// A table of `prettytable`: a title row, if one was set, and rows of
/// cells.
#[verifier::external_type_specification]
#[verifier::external_body]
pub struct ExTable(prettytable::Table);

/// The rows of a table, in their order, each by the texts of its cells.
pub uninterp spec fn table_rows(table: Table) -> Seq<Seq<Seq<char>>>;

/// The title row of a table by the texts of its cells; empty where the
/// table has no titles.
pub uninterp spec fn table_titles(table: Table) -> Seq<Seq<char>>;

/// The texts that the cells of a row hold when the row is made from
/// `texts`: a cell holds the lines of its text, joined by line feeds.
pub uninterp spec fn row_texts(texts: Seq<Seq<char>>) -> Seq<Seq<char>>;

/// The timetable has nothing to show.
#[derive(Debug, Clone, Copy, PartialEq, Eq, Structural)]
pub struct NoEvents;

/// The message with which an empty timetable is reported.
pub open spec fn no_events_text() -> Seq<char> {
    "no events to be shown"@
}

impl NoEvents {
    /// The message with which an empty timetable is reported.
    pub fn message(&self) -> (r: &'static str)
        ensures
            r@ == no_events_text(),
    {
        "no events to be shown"
    }
}

/// Why there is no table to show.
#[derive(Debug, Clone, Copy, PartialEq, Eq, Structural)]
pub enum TimetableError {
    /// The feed could not be read.
    Feed(ParseError),
    /// The feed was read, and nothing in it is to be shown.
    Empty(NoEvents),
    /// A text that would go into a cell holds the escape character, which
    /// the table cannot measure.
    Unprintable,
}

/// The escape character, which opens the control sequences of a terminal.
pub const ESCAPE: char = '\u{1b}';

/// The message with which a text that cannot be shown is reported.
pub open spec fn unprintable_text() -> Seq<char> {
    "text holds an escape character"@
}

/// None of the texts holds the escape character.
pub open spec fn printable(texts: Seq<Seq<char>>) -> bool {
    forall|k: int| 0 <= k < texts.len() ==> !(#[trigger] texts[k]).contains(ESCAPE)
}

/// The row of every event is printable.
pub open spec fn all_printable(events: Seq<Event>) -> bool {
    forall|i: int| 0 <= i < events.len() ==> printable(#[trigger] row_of(i, events[i]))
}

impl TimetableError {
    /// The message by which the failure is reported.
    pub open spec fn text(self) -> Seq<char> {
        match self {
            TimetableError::Feed(e) => e.text(),
            TimetableError::Empty(_) => no_events_text(),
            TimetableError::Unprintable => unprintable_text(),
        }
    }

    /// The message by which the failure is reported.
    pub fn message(&self) -> (r: &'static str)
        ensures
            r@ == self.text(),
    {
        match self {
            TimetableError::Feed(e) => e.message(),
            TimetableError::Empty(e) => e.message(),
            TimetableError::Unprintable => "text holds an escape character",
        }
    }
}

/// The titles of the five columns.
pub open spec fn header_titles() -> Seq<Seq<char>> {
    seq!["#"@, "przedmiot"@, "rodzaj"@, "sala"@, "data"@]
}

/// The cells of the row that shows `event` in place `index`, counted from
/// zero: its number, which is one more, then name, kind, room and date.
pub open spec fn row_of(index: int, event: Event) -> Seq<Seq<char>> {
    seq![
        decimal((index + 1) as nat),
        event.event_name@,
        event.event_type@,
        event.location@,
        date_cell(event.from, event.to),
    ]
}

/// The texts of a row of cells.
pub open spec fn cell_texts(cells: Seq<String>) -> Seq<Seq<char>> {
    cells.map_values(|c: String| c@)
}

/// The events that are shown out of `events` at `now`: all of them where
/// filtering is off, else those that end within the window.
pub open spec fn shown(events: Seq<Event>, disable_filtering: bool, now: Instant) -> Seq<Event> {
    if disable_filtering {
        events
    } else {
        events.filter(upcoming(now))
    }
}

/// With filtering off as many events are shown as there are; with filtering
/// on, no more than there are.
pub proof fn lemma_shown_len(events: Seq<Event>, disable_filtering: bool, now: Instant)
    ensures
        disable_filtering ==> shown(events, disable_filtering, now) == events,
        shown(events, disable_filtering, now).len() <= events.len(),
{
    events.lemma_filter_len(upcoming(now));
}

/// The rows of a table are numbered from one.
pub proof fn lemma_first_row_number(event: Event)
    ensures
        row_of(0, event)[0] == seq!['1'],
{
    assert(decimal(1) =~= seq!['1']);
}

/// Calls `prettytable::Table::new`, which makes a table without titles and
/// without rows.
#[verifier::external_body]
fn new_table() -> (table: Table)
    ensures
        table_rows(table) == Seq::<Seq<Seq<char>>>::empty(),
        table_titles(table) == Seq::<Seq<char>>::empty(),
{
    Table::new()
}

/// Calls `prettytable::Table::set_titles` with a row of one cell for each
/// text, made by `Cell::new` and `Row::new`. The title row is replaced and
/// the rows stay. The new title row has as many cells as there are texts,
/// and since `Cell::new` keeps the lines of its text, a text without a line
/// feed is held as it is. `Cell::new` measures its text and gives up on
/// some texts that hold the escape character, so none may hold it.
#[verifier::external_body]
fn set_titles(table: &mut Table, titles: &Vec<String>)
    requires
        printable(cell_texts(titles@)),
    ensures
        table_titles(*final(table)) == row_texts(cell_texts(titles@)),
        table_titles(*final(table)).len() == titles.len(),
        forall|i: int|
            0 <= i < titles.len() && !(#[trigger] titles[i])@.contains('\n') ==> table_titles(
                *final(table),
            )[i] == titles[i]@,
        table_rows(*final(table)) == table_rows(*old(table)),
{
    table.set_titles(Row::new(titles.iter().map(|text| Cell::new(text)).collect()));
}

/// Calls `prettytable::Table::add_row` with a row of one cell for each text,
/// made by `Cell::new` and `Row::new`. The row is appended after the rows
/// that the table has, and the titles stay. The new row has as many cells
/// as there are texts, and since `Cell::new` keeps the lines of its text, a
/// text without a line feed is held as it is. `Cell::new` measures its text
/// and gives up on some texts that hold the escape character, so none may
/// hold it.
#[verifier::external_body]
fn add_row(table: &mut Table, cells: &Vec<String>)
    requires
        printable(cell_texts(cells@)),
    ensures
        table_rows(*final(table)) == table_rows(*old(table)).push(row_texts(cell_texts(cells@))),
        table_rows(*final(table)).last().len() == cells.len(),
        forall|i: int|
            0 <= i < cells.len() && !(#[trigger] cells[i])@.contains('\n') ==> table_rows(
                *final(table),
            ).last()[i] == cells[i]@,
        table_titles(*final(table)) == table_titles(*old(table)),
{
    table.add_row(Row::new(cells.iter().map(|text| Cell::new(text)).collect()));
}

/// Writes the titles of the five columns.
pub fn header() -> (r: Vec<String>)
    ensures
        cell_texts(r@) == header_titles(),
{
    let mut titles: Vec<String> = Vec::new();
    titles.push("#".to_owned());
    titles.push("przedmiot".to_owned());
    titles.push("rodzaj".to_owned());
    titles.push("sala".to_owned());
    titles.push("data".to_owned());
    assert(cell_texts(titles@) =~= header_titles());
    titles
}

/// Chooses the events to show at `now`.
///
/// With filtering off every event is kept. Otherwise an event is kept where
/// it ends no earlier than `now` and no later than fourteen days after it.
/// The order of the events is kept. Where nothing is left, there is no
/// timetable to show.
pub fn select_events_at(events: Vec<Event>, disable_filtering: bool, now: &Instant) -> (r: Result<
    Vec<Event>,
    NoEvents,
>)
    ensures
        match r {
            Ok(kept) => kept@ == shown(events@, disable_filtering, *now) && kept.len() > 0,
            Err(_) => shown(events@, disable_filtering, *now).len() == 0,
        },
        disable_filtering ==> (r matches Ok(kept) ==> kept.len() == events.len()),
        r matches Ok(kept) ==> kept.len() <= events.len(),
        r matches Ok(kept) ==> (all_wf(events@) ==> all_wf(kept@)),
{
    let kept = if disable_filtering {
        events
    } else {
        filter_events_at(events, now)
    };
    if kept.len() == 0 {
        Err(NoEvents)
    } else {
        Ok(kept)
    }
}

/// Writes the row of one event.
pub fn row(index: usize, event: &Event) -> (r: Vec<String>)
    requires
        event.wf(),
        index < usize::MAX,
    ensures
        cell_texts(r@) == row_of(index as int, *event),
{
    let mut cells: Vec<String> = Vec::new();
    cells.push(decimal_string(index + 1));
    cells.push(event.event_name.clone());
    cells.push(event.event_type.clone());
    cells.push(event.location.clone());
    cells.push(format_date(event.from, event.to));
    assert(cell_texts(cells@) =~= row_of(index as int, *event));
    cells
}

/// The cells of a table row hold the texts that they were made from: there
/// are as many cells as texts, and every text without a line feed is held
/// as it is.
pub open spec fn holds(row: Seq<Seq<char>>, texts: Seq<Seq<char>>) -> bool {
    &&& row.len() == texts.len()
    &&& forall|k: int| 0 <= k < texts.len() && !(#[trigger] texts[k]).contains('\n') ==> row[k] == texts[k]
}

/// The rows that the table of `events` holds: one for each event, in the
/// order of the events, numbered from one.
pub open spec fn rows_of(events: Seq<Event>) -> Seq<Seq<Seq<char>>> {
    Seq::new(events.len(), |i: int| row_texts(row_of(i, events[i])))
}

/// Whether none of the texts holds the escape character.
pub fn is_printable(cells: &Vec<String>) -> (r: bool)
    ensures
        r == printable(cell_texts(cells@)),
{
    let mut k: usize = 0;
    while k < cells.len()
        invariant
            k <= cells.len(),
            forall|j: int| 0 <= j < k ==> !(#[trigger] cell_texts(cells@)[j]).contains(ESCAPE),
        decreases cells.len() - k,
    {
        if has_char(cells[k].as_str(), ESCAPE) {
            assert(cell_texts(cells@)[k as int].contains(ESCAPE));
            return false;
        }
        k += 1;
    }
    true
}

/// Fills a table with the events.
///
/// The table has the five titles and one row for each event, in the order
/// of the events and numbered from one. Where a text of a row holds the
/// escape character, there is no table.
pub fn build_table(events: &Vec<Event>) -> (r: Result<Table, TimetableError>)
    requires
        all_wf(events@),
    ensures
        match r {
            Ok(table) => {
                &&& all_printable(events@)
                &&& table_titles(table) == header_titles()
                &&& table_rows(table) == rows_of(events@)
                &&& forall|i: int|
                    0 <= i < events.len() ==> holds(
                        #[trigger] table_rows(table)[i],
                        row_of(i, events[i]),
                    )
                &&& forall|i: int|
                    0 <= i < events.len() ==> (#[trigger] table_rows(table)[i])[0] == decimal(
                        (i + 1) as nat,
                    )
            },
            Err(e) => e == TimetableError::Unprintable && !all_printable(events@),
        },
{
    let mut table = new_table();
    let titles = header();
    proof {
        lemma_titles_are_plain();
        assert(titles@.len() == cell_texts(titles@).len() == 5);
    }
    set_titles(&mut table, &titles);
    proof {
        assert(table_titles(table) =~= header_titles()) by {
            assert forall|k: int| 0 <= k < 5 implies table_titles(table)[k]
                == header_titles()[k] by {
                assert(titles[k]@ == cell_texts(titles@)[k]);
            }
        }
    }
    let mut i: usize = 0;
    while i < events.len()
        invariant
            i <= events.len(),
            all_wf(events@),
            table_titles(table) == header_titles(),
            table_rows(table) == rows_of(events@.take(i as int)),
            forall|j: int| 0 <= j < i ==> printable(#[trigger] row_of(j, events[j])),
            forall|j: int|
                0 <= j < i ==> holds(#[trigger] table_rows(table)[j], row_of(j, events[j])),
            forall|j: int|
                0 <= j < i ==> (#[trigger] table_rows(table)[j])[0] == decimal((j + 1) as nat),
        decreases events.len() - i,
    {
        let ghost before = table_rows(table);
        let cells = row(i, &events[i]);
        if !is_printable(&cells) {
            assert(!printable(row_of(i as int, events[i as int])));
            return Err(TimetableError::Unprintable);
        }
        add_row(&mut table, &cells);
        proof {
            let texts = row_of(i as int, events[i as int]);
            assert(rows_of(events@.take(i + 1)) =~= rows_of(events@.take(i as int)).push(
                row_texts(texts),
            ));
            let added = table_rows(table)[i as int];
            assert(added == table_rows(table).last());
            assert(holds(added, texts)) by {
                assert forall|k: int|
                    0 <= k < texts.len() && !(#[trigger] texts[k]).contains('\n') implies added[k]
                    == texts[k] by {
                    assert(cells[k]@ == texts[k]);
                }
            }
            lemma_decimal_on_one_line((i + 1) as nat);
            assert forall|j: int| 0 <= j < i implies table_rows(table)[j] == before[j] by {}
        }
        i += 1;
    }
    assert(events@.take(i as int) =~= events@);
    Ok(table)
}

/// What making the table of a feed may give at `now`: the table of the
/// events that are shown out of those read, or the failure of the reading,
/// or the news that nothing is to be shown, or that a text of what is to be
/// shown holds the escape character.
pub open spec fn timetable_outcome(
    bytes: Seq<u8>,
    zone: Zone,
    shift: bool,
    disable_filtering: bool,
    now: Instant,
    r: Result<Table, TimetableError>,
) -> bool {
    match r {
        Err(TimetableError::Feed(e)) => parse_outcome(
            bytes,
            zone,
            shift,
            Err::<Seq<EventView>, ParseError>(e),
        ),
        Err(TimetableError::Empty(_)) => exists|events: Vec<Event>|
            {
                &&& parse_outcome(bytes, zone, shift, #[trigger] events_result_view(Ok(events)))
                &&& shown(events@, disable_filtering, now).len() == 0
            },
        Err(TimetableError::Unprintable) => exists|events: Vec<Event>|
            {
                &&& parse_outcome(bytes, zone, shift, #[trigger] events_result_view(Ok(events)))
                &&& shown(events@, disable_filtering, now).len() > 0
                &&& !all_printable(shown(events@, disable_filtering, now))
            },
        Ok(table) => exists|events: Vec<Event>|
            {
                &&& parse_outcome(bytes, zone, shift, #[trigger] events_result_view(Ok(events)))
                &&& shown(events@, disable_filtering, now).len() > 0
                &&& all_printable(shown(events@, disable_filtering, now))
                &&& table_titles(table) == header_titles()
                &&& table_rows(table) == rows_of(shown(events@, disable_filtering, now))
                &&& forall|i: int|
                    0 <= i < table_rows(table).len() ==> holds(
                        #[trigger] table_rows(table)[i],
                        row_of(i, shown(events@, disable_filtering, now)[i]),
                    )
            },
    }
}

/// Makes the table of a calendar feed as it is shown at `now`.
///
/// The feed is read in `zone`, the events to show are chosen, and the table
/// is filled with them. A feed that cannot be read fails, and so does one
/// that leaves nothing to show or holds a text that cannot be shown.
pub fn timetable_at(
    buf: &[u8],
    zone: &Zone,
    shift: bool,
    disable_filtering: bool,
    now: &Instant,
) -> (r: Result<Table, TimetableError>)
    ensures
        timetable_outcome(buf@, *zone, shift, disable_filtering, *now, r),
{
    let events = match parse_ical_in(buf, zone, shift) {
        Err(e) => {
            return Err(TimetableError::Feed(e));
        },
        Ok(events) => events,
    };
    let ghost read = events;
    match select_events_at(events, disable_filtering, now) {
        Err(e) => {
            assert(parse_outcome(buf@, *zone, shift, events_result_view(Ok(read))));
            Err(TimetableError::Empty(e))
        },
        Ok(kept) => {
            assert(parse_outcome(buf@, *zone, shift, events_result_view(Ok(read))));
            build_table(&kept)
        },
    }
}

/// Makes the table of a calendar feed as it is shown at the present moment:
/// the feed is read in the machine's zone with the shift on, and the moment
/// is read from the system clock.
pub fn timetable(buf: &[u8], disable_filtering: bool) -> (r: Result<Table, TimetableError>)
    ensures
        exists|now: Instant|
            timetable_outcome(buf@, Zone::Local, true, disable_filtering, now, r),
{
    let now = clock();
    timetable_at(buf, &Zone::Local, true, disable_filtering, &now)
}

/// The decimal text of a number holds no line feed.
proof fn lemma_decimal_on_one_line(n: nat)
    ensures
        !decimal(n).contains('\n'),
    decreases n,
{
    if n >= 10 {
        lemma_decimal_on_one_line(n / 10);
        let front = decimal(n / 10);
        let all = decimal(n);
        assert forall|k: int| 0 <= k < all.len() implies all[k] != '\n' by {
            if k < front.len() {
                assert(front.contains(front[k]));
            }
        }
    }
}

/// None of the five titles holds a line feed or the escape character.
proof fn lemma_titles_are_plain()
    ensures
        forall|k: int| 0 <= k < 5 ==> !(#[trigger] header_titles()[k]).contains('\n'),
        printable(header_titles()),
{
    reveal_strlit("#");
    reveal_strlit("przedmiot");
    reveal_strlit("rodzaj");
    reveal_strlit("sala");
    reveal_strlit("data");
    assert(!header_titles()[0].contains('\n'));
    assert(!header_titles()[1].contains('\n'));
    assert(!header_titles()[2].contains('\n'));
    assert(!header_titles()[3].contains('\n'));
    assert(!header_titles()[4].contains('\n'));
    assert(!header_titles()[0].contains(ESCAPE));
    assert(!header_titles()[1].contains(ESCAPE));
    assert(!header_titles()[2].contains(ESCAPE));
    assert(!header_titles()[3].contains(ESCAPE));
    assert(!header_titles()[4].contains(ESCAPE));
}

} // verus!
