use prettytable::{Cell, Row, Table};
use std::time::{SystemTime, UNIX_EPOCH};
use timetable::error::ParseError;
use timetable::table::{timetable, timetable_at, NoEvents, TimetableError};
use timetable::time::{Instant, Zone};

const FEED: &str = "BEGIN:VCALENDAR\r\n\
BEGIN:VEVENT\r\nDTSTART:20240331T080000\r\nDTEND:20240331T093000\r\nSUMMARY:Bazy L s. A/12\r\nEND:VEVENT\r\n\
BEGIN:VEVENT\r\nDTSTART:20240404T100000\r\nDTEND:20240404T113000\r\nSUMMARY:Algorytmy W s. 101\r\nEND:VEVENT\r\n\
END:VCALENDAR\r\n";

// 2024-04-01 09:30:00 UTC, a day after the first event ends and three
// days before the second does.
const NOW: Instant = Instant { seconds: 1_711_963_800, nanos: 0 };

fn cells(texts: &[&str]) -> Row {
    Row::new(texts.iter().map(|text| Cell::new(text)).collect())
}

fn titled() -> Table {
    let mut table = Table::new();
    table.set_titles(cells(&["#", "przedmiot", "rodzaj", "sala", "data"]));
    table
}

#[test]
fn past_event_is_left_out_of_the_table() {
    let table = timetable_at(FEED.as_bytes(), &Zone::Fixed(0), true, false, &NOW).unwrap();
    let mut expected = titled();
    expected.add_row(cells(&["1", "Algorytmy", "W", "101", "2024-04-04, 10:00-11:30"]));
    assert_eq!(table, expected);
}

#[test]
fn all_events_are_in_the_table_when_asked_for() {
    let table = timetable_at(FEED.as_bytes(), &Zone::Fixed(0), true, true, &NOW).unwrap();
    let mut expected = titled();
    expected.add_row(cells(&["1", "Bazy", "L", "A/12", "2024-03-31, 08:00-09:30"]));
    expected.add_row(cells(&["2", "Algorytmy", "W", "101", "2024-04-04, 10:00-11:30"]));
    assert_eq!(table, expected);
}

#[test]
fn table_shows_the_time_of_the_zone() {
    let table = timetable_at(FEED.as_bytes(), &Zone::Fixed(7200), true, false, &NOW).unwrap();
    let mut expected = titled();
    expected.add_row(cells(&["1", "Algorytmy", "W", "101", "2024-04-04, 12:00-13:30"]));
    assert_eq!(table, expected);
    let table = timetable_at(FEED.as_bytes(), &Zone::Fixed(7200), false, false, &NOW).unwrap();
    let mut expected = titled();
    expected.add_row(cells(&["1", "Algorytmy", "W", "101", "2024-04-04, 10:00-11:30"]));
    assert_eq!(table, expected);
}

#[test]
fn feed_without_coming_events_has_no_table() {
    let later = Instant { seconds: NOW.seconds + 30 * 86_400, nanos: 0 };
    assert_eq!(
        timetable_at(FEED.as_bytes(), &Zone::Fixed(0), true, false, &later),
        Err(TimetableError::Empty(NoEvents))
    );
    let empty = b"BEGIN:VCALENDAR\r\nEND:VCALENDAR\r\n";
    for all in [true, false] {
        assert_eq!(
            timetable_at(empty, &Zone::Fixed(0), true, all, &NOW),
            Err(TimetableError::Empty(NoEvents))
        );
        assert_eq!(timetable(empty, all), Err(TimetableError::Empty(NoEvents)));
    }
    assert_eq!(TimetableError::Empty(NoEvents).message(), "no events to be shown");
}

#[test]
fn feed_that_cannot_be_read_has_no_table() {
    assert_eq!(
        timetable_at(b"", &Zone::Fixed(0), true, true, &NOW),
        Err(TimetableError::Feed(ParseError::EmptyFeed))
    );
    let broken = FEED.replace("Algorytmy W", "AlgorytmyW");
    assert_eq!(
        timetable_at(broken.as_bytes(), &Zone::Fixed(0), true, true, &NOW),
        Err(TimetableError::Feed(ParseError::SummaryWithoutKind))
    );
    assert_eq!(
        timetable(broken.as_bytes(), false),
        Err(TimetableError::Feed(ParseError::SummaryWithoutKind))
    );
    assert_eq!(
        TimetableError::Feed(ParseError::SummaryWithoutKind).message(),
        "event_split has length != 2"
    );
}

#[test]
fn table_is_made_at_the_present_moment() {
    let table = timetable(FEED.as_bytes(), true).unwrap();
    assert_eq!(table.len(), 2);
    let now = SystemTime::now().duration_since(UNIX_EPOCH).unwrap().as_secs();
    if now > 1_713_000_000 + 86_400 {
        assert_eq!(timetable(FEED.as_bytes(), false), Err(TimetableError::Empty(NoEvents)));
    }
}

#[test]
fn feed_with_an_escape_character_has_no_table() {
    let escaped = FEED.replace("Algorytmy W", "\u{1b}[\u{0644}\u{0627}\u{0644}\u{0627} W");
    assert_eq!(
        timetable_at(escaped.as_bytes(), &Zone::Fixed(0), true, true, &NOW),
        Err(TimetableError::Unprintable)
    );
    assert_eq!(
        timetable_at(escaped.as_bytes(), &Zone::Fixed(0), true, false, &NOW),
        Err(TimetableError::Unprintable)
    );
    let past = FEED.replace("Bazy L", "\u{1b}[\u{0644}\u{0627}\u{0644}\u{0627} L");
    assert!(timetable_at(past.as_bytes(), &Zone::Fixed(0), true, false, &NOW).is_ok());
    assert_eq!(
        timetable_at(past.as_bytes(), &Zone::Fixed(0), true, true, &NOW),
        Err(TimetableError::Unprintable)
    );
}
