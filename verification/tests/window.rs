use std::time::{SystemTime, UNIX_EPOCH};
use timetable::event::{filter_events, filter_events_at, Event};
use prettytable::{Cell, Row, Table};
use timetable::table::{
    build_table, header, is_printable, row, select_events_at, NoEvents, TimetableError,
};
use timetable::time::{Duration, Instant, Timestamp};

const NOW: Instant = Instant { seconds: 1_712_000_000, nanos: 0 };
const MINUTE: i64 = 60;
const DAY: i64 = 86_400;

fn ending(seconds: i64, name: &str) -> Event {
    Event {
        event_name: name.to_owned(),
        event_type: "W".to_owned(),
        location: "101".to_owned(),
        from: Timestamp { seconds: seconds - 5400, offset: 0 },
        to: Timestamp { seconds, offset: 0 },
    }
}

fn shown(end: i64, now: &Instant) -> bool {
    ending(end, "x").in_day_range_at(now, Duration::zero(), Duration::days(14))
}

fn names(events: &[Event]) -> Vec<&str> {
    events.iter().map(|e| e.event_name.as_str()).collect()
}

fn clock() -> i64 {
    SystemTime::now().duration_since(UNIX_EPOCH).unwrap().as_secs() as i64
}

#[test]
fn event_that_ends_now_is_shown() {
    assert!(shown(NOW.seconds, &NOW));
}

#[test]
fn event_that_ends_in_fourteen_days_is_shown() {
    assert!(shown(NOW.seconds + 14 * DAY, &NOW));
}

#[test]
fn event_that_ended_a_minute_ago_is_not_shown() {
    assert!(!shown(NOW.seconds - MINUTE, &NOW));
}

#[test]
fn event_that_ends_a_minute_after_fourteen_days_is_not_shown() {
    assert!(!shown(NOW.seconds + 14 * DAY + MINUTE, &NOW));
}

#[test]
fn window_is_exact_to_the_second() {
    assert!(!shown(NOW.seconds - 1, &NOW));
    assert!(!shown(NOW.seconds - 30, &NOW));
    assert!(!shown(NOW.seconds - 59, &NOW));
    assert!(shown(NOW.seconds + 1, &NOW));
    assert!(shown(NOW.seconds + 14 * DAY - 1, &NOW));
    assert!(!shown(NOW.seconds + 14 * DAY + 1, &NOW));
    assert!(!shown(NOW.seconds + 14 * DAY + 59, &NOW));
}

#[test]
fn fraction_of_the_present_second_counts() {
    let late = Instant { seconds: NOW.seconds, nanos: 1 };
    assert!(!shown(NOW.seconds, &late));
    assert!(shown(NOW.seconds + 1, &late));
    assert!(shown(NOW.seconds + 14 * DAY, &late));
    assert!(!shown(NOW.seconds + 14 * DAY + 1, &late));
    let latest = Instant { seconds: NOW.seconds, nanos: 999_999_999 };
    assert!(!shown(NOW.seconds, &latest));
    assert!(shown(NOW.seconds + 1, &latest));
    assert!(shown(NOW.seconds + 14 * DAY, &latest));
    assert!(!shown(NOW.seconds + 14 * DAY + 1, &latest));
}

#[test]
fn distance_agrees_with_the_calendar() {
    let now = chrono::DateTime::from_timestamp(NOW.seconds, 250_000_000).unwrap();
    let mine = Instant { seconds: NOW.seconds, nanos: 250_000_000 };
    for end in [-3601, -61, -60, -59, -1, 0, 1, 59, 60, 61, 14 * DAY - 1, 14 * DAY, 14 * DAY + 1] {
        let to = chrono::DateTime::from_timestamp(NOW.seconds + end, 0).unwrap();
        let distance = to - now;
        let expected =
            distance >= chrono::Duration::zero() && distance <= chrono::Duration::days(14);
        assert_eq!(shown(NOW.seconds + end, &mine), expected);
    }
    let whole = chrono::DateTime::from_timestamp(NOW.seconds, 0).unwrap();
    for end in [-1, 0, 1, 14 * DAY - 1, 14 * DAY, 14 * DAY + 1] {
        let to = chrono::DateTime::from_timestamp(NOW.seconds + end, 0).unwrap();
        let distance = to - whole;
        let expected =
            distance >= chrono::Duration::zero() && distance <= chrono::Duration::days(14);
        assert_eq!(shown(NOW.seconds + end, &NOW), expected);
    }
}

#[test]
fn bounds_may_be_any_spans() {
    let event = ending(NOW.seconds - 3 * DAY, "x");
    assert!(event.in_day_range_at(&NOW, Duration::days(-3), Duration::zero()));
    assert!(!event.in_day_range_at(&NOW, Duration::days(-2), Duration::zero()));
    assert!(!event.in_day_range_at(&NOW, Duration::days(1), Duration::days(-1)));
    assert!(event.in_day_range_at(
        &NOW,
        Duration { seconds: -3 * DAY },
        Duration { seconds: -3 * DAY }
    ));
    assert!(!event.in_day_range_at(
        &NOW,
        Duration { seconds: -3 * DAY + 1 },
        Duration { seconds: -3 * DAY + 59 }
    ));
}

#[test]
fn distance_does_not_overflow() {
    let far = Instant { seconds: i64::MIN, nanos: u32::MAX };
    assert!(!ending(i64::MAX, "x").in_day_range_at(&far, Duration::zero(), Duration::days(14)));
    let near = Instant { seconds: i64::MAX, nanos: 0 };
    assert!(!ending(i64::MIN + 5400, "x").in_day_range_at(
        &near,
        Duration::zero(),
        Duration::days(14)
    ));
}

#[test]
fn present_moment_is_read_from_the_clock() {
    let now = clock();
    assert!(ending(now + 3 * DAY, "x").in_day_range(Duration::zero(), Duration::days(14)));
    assert!(!ending(now - DAY, "x").in_day_range(Duration::zero(), Duration::days(14)));
    assert!(!ending(now + 15 * DAY, "x").in_day_range(Duration::zero(), Duration::days(14)));
    assert!(ending(now - DAY, "x").in_day_range(Duration::days(-2), Duration::zero()));
}

#[test]
fn filter_keeps_the_order_of_what_it_keeps() {
    let events = vec![
        ending(NOW.seconds + 3 * DAY, "in three days"),
        ending(NOW.seconds - DAY, "yesterday"),
        ending(NOW.seconds + DAY, "tomorrow"),
        ending(NOW.seconds + 15 * DAY, "far"),
        ending(NOW.seconds, "now"),
    ];
    let kept = filter_events_at(events, &NOW);
    assert_eq!(names(&kept), vec!["in three days", "tomorrow", "now"]);
}

#[test]
fn filter_of_nothing_is_nothing() {
    assert_eq!(filter_events_at(Vec::new(), &NOW), Vec::new());
    assert_eq!(filter_events(Vec::new()), Vec::new());
}

#[test]
fn filter_reads_the_clock() {
    let now = clock();
    let events = vec![ending(now - DAY, "yesterday"), ending(now + 3 * DAY, "in three days")];
    assert_eq!(names(&filter_events(events)), vec!["in three days"]);
}

#[test]
fn past_events_are_pruned_unless_all_are_asked_for() {
    let events = vec![ending(NOW.seconds - DAY, "yesterday"), ending(NOW.seconds + 3 * DAY, "soon")];
    let kept = select_events_at(events.clone(), false, &NOW).unwrap();
    assert_eq!(names(&kept), vec!["soon"]);
    let all = select_events_at(events.clone(), true, &NOW).unwrap();
    assert_eq!(all, events);
}

#[test]
fn nothing_to_show_is_a_failure() {
    assert_eq!(select_events_at(Vec::new(), true, &NOW), Err(NoEvents));
    assert_eq!(select_events_at(Vec::new(), false, &NOW), Err(NoEvents));
    let past = vec![ending(NOW.seconds - DAY, "yesterday")];
    assert_eq!(select_events_at(past.clone(), false, &NOW), Err(NoEvents));
    assert_eq!(select_events_at(past.clone(), true, &NOW), Ok(past));
    assert_eq!(NoEvents.message(), "no events to be shown");
}

#[test]
fn table_has_five_titles() {
    assert_eq!(header(), vec!["#", "przedmiot", "rodzaj", "sala", "data"]);
}

#[test]
fn row_holds_number_name_kind_room_and_date() {
    let event = Event {
        event_name: "Algorytmy".to_owned(),
        event_type: "W".to_owned(),
        location: "101".to_owned(),
        from: Timestamp { seconds: 1_711_958_400, offset: 0 },
        to: Timestamp { seconds: 1_711_965_000, offset: 0 },
    };
    assert_eq!(row(0, &event), vec!["1", "Algorytmy", "W", "101", "2024-04-01, 08:00-09:50"]);
    assert_eq!(row(41, &event)[0], "42");
}

fn cells(texts: &[&str]) -> Row {
    Row::new(texts.iter().map(|text| Cell::new(text)).collect())
}

#[test]
fn table_is_filled_with_titles_and_rows() {
    let events = vec![ending(NOW.seconds, "Algorytmy"), ending(NOW.seconds + DAY, "Bazy")];
    let table = build_table(&events).unwrap();
    let mut expected = Table::new();
    expected.set_titles(cells(&["#", "przedmiot", "rodzaj", "sala", "data"]));
    expected.add_row(cells(&["1", "Algorytmy", "W", "101", "2024-04-01, 18:03-19:33"]));
    expected.add_row(cells(&["2", "Bazy", "W", "101", "2024-04-02, 18:03-19:33"]));
    assert_eq!(table, expected);
    assert_eq!(table.len(), 2);
    assert_eq!(table.get_row(1).unwrap().get_cell(1).unwrap().get_content(), "Bazy");
}

#[test]
fn table_is_drawn_with_its_titles() {
    let events = vec![Event {
        event_name: "Algorytmy".to_owned(),
        event_type: "W".to_owned(),
        location: "101".to_owned(),
        from: Timestamp { seconds: 1_711_958_400, offset: 0 },
        to: Timestamp { seconds: 1_711_965_000, offset: 0 },
    }];
    let drawn = build_table(&events).unwrap().to_string();
    let lines: Vec<&str> = drawn.lines().collect();
    assert_eq!(
        lines,
        vec![
            "+---+-----------+--------+------+-------------------------+",
            "| # | przedmiot | rodzaj | sala | data                    |",
            "+===+===========+========+======+=========================+",
            "| 1 | Algorytmy | W      | 101  | 2024-04-01, 08:00-09:50 |",
            "+---+-----------+--------+------+-------------------------+",
        ]
    );
}

#[test]
fn table_of_no_events_has_only_titles() {
    let table = build_table(&Vec::new()).unwrap();
    let mut expected = Table::new();
    expected.set_titles(cells(&["#", "przedmiot", "rodzaj", "sala", "data"]));
    assert_eq!(table, expected);
    assert!(table.is_empty());
}

#[test]
fn table_keeps_the_order_of_the_events() {
    let events: Vec<Event> =
        (0..25).rev().map(|i| ending(NOW.seconds + i * DAY, &format!("event {}", i))).collect();
    let table = build_table(&events).unwrap();
    assert_eq!(table.len(), 25);
    for (i, row) in table.row_iter().enumerate() {
        assert_eq!(row.len(), 5);
        assert_eq!(row.get_cell(0).unwrap().get_content(), format!("{}", i + 1));
        assert_eq!(row.get_cell(1).unwrap().get_content(), format!("event {}", 24 - i));
    }
}

#[test]
fn cell_keeps_the_lines_of_its_text() {
    let mut event = ending(NOW.seconds, "two\nlines");
    event.location = "ends with a line feed\n".to_owned();
    let table = build_table(&vec![event]).unwrap();
    let row = table.get_row(0).unwrap();
    assert_eq!(row.get_cell(1).unwrap().get_content(), "two\nlines");
    assert_eq!(row.get_cell(3).unwrap().get_content(), "ends with a line feed");
}

#[test]
fn text_with_an_escape_character_is_not_put_in_a_table() {
    let lam_alef = "\u{1b}[\u{0644}\u{0627}\u{0644}\u{0627}";
    for text in [lam_alef, "\u{1b}", "a\u{1b}[31mred\u{1b}[0m"] {
        let mut named = ending(NOW.seconds, "x");
        named.event_name = text.to_owned();
        let mut typed = ending(NOW.seconds, "x");
        typed.event_type = text.to_owned();
        let mut placed = ending(NOW.seconds, "x");
        placed.location = text.to_owned();
        for event in [named, typed, placed] {
            let events = vec![ending(NOW.seconds, "fine"), event];
            assert_eq!(build_table(&events), Err(TimetableError::Unprintable));
        }
    }
    assert_eq!(TimetableError::Unprintable.message(), "text holds an escape character");
}

#[test]
fn text_without_an_escape_character_is_put_in_a_table() {
    let event = ending(NOW.seconds, "\u{0644}\u{0627}\u{0644}\u{0627} [m \u{7}\t\u{9b}");
    let table = build_table(&vec![event.clone()]).unwrap();
    assert_eq!(table.get_row(0).unwrap().get_cell(1).unwrap().get_content(), event.event_name);
}

#[test]
fn printable_texts_are_told_apart() {
    assert!(is_printable(&Vec::new()));
    assert!(is_printable(&vec!["a".to_owned(), String::new(), "[0m".to_owned()]));
    assert!(!is_printable(&vec!["a".to_owned(), "b\u{1b}".to_owned()]));
    assert!(!is_printable(&vec!["\u{1b}[".to_owned()]));
}
