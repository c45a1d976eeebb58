use timetable::error::ParseError;
use timetable::event::Event;
use timetable::parser::{
    assemble, parse_ical, parse_ical_in, pick, read_entries, read_entry, Property,
};
use timetable::time::{format_date, Timestamp, Zone};

const UTC: Zone = Zone::Fixed(0);
// 2024-04-01 08:00:00 and 09:50:00 as seconds since 1970-01-01 00:00:00.
const START: i64 = 1_711_958_400;
const END: i64 = 1_711_965_000;

fn calendar(entries: &[&[&str]]) -> Vec<u8> {
    let mut feed = String::from("BEGIN:VCALENDAR\r\nVERSION:2.0\r\n");
    for lines in entries {
        feed.push_str("BEGIN:VEVENT\r\n");
        for line in lines.iter() {
            feed.push_str(line);
            feed.push_str("\r\n");
        }
        feed.push_str("END:VEVENT\r\n");
    }
    feed.push_str("END:VCALENDAR\r\n");
    feed.into_bytes()
}

fn property(name: &str, value: Option<&str>) -> Property {
    Property { name: name.to_owned(), value: value.map(str::to_owned) }
}

fn at(seconds: i64) -> Timestamp {
    Timestamp { seconds, offset: 0 }
}

fn algorithms() -> Event {
    Event {
        event_name: "Algorytmy".to_owned(),
        event_type: "W".to_owned(),
        location: "101".to_owned(),
        from: at(START),
        to: at(END),
    }
}

const ALGORITHMS: [&str; 3] =
    ["DTSTART:20240401T080000", "DTEND:20240401T095000", "SUMMARY:Algorytmy W s. 101"];

#[test]
fn feed_with_one_event() {
    let events = parse_ical_in(&calendar(&[&ALGORITHMS]), &UTC, true).unwrap();
    assert_eq!(events, vec![algorithms()]);
    assert_eq!(format_date(events[0].from, events[0].to), "2024-04-01, 08:00-09:50");
}

#[test]
fn feed_with_unix_line_ends() {
    let feed = "BEGIN:VCALENDAR\nBEGIN:VEVENT\nDTSTART:20240401T080000\n\
                DTEND:20240401T095000\nSUMMARY:Algorytmy W s. 101\nEND:VEVENT\nEND:VCALENDAR\n";
    assert_eq!(parse_ical_in(feed.as_bytes(), &UTC, true), Ok(vec![algorithms()]));
}

#[test]
fn events_come_in_feed_order() {
    let later = ["DTSTART:20240402T100000Z", "DTEND:20240402T113000Z", "SUMMARY:Bazy L s. A/12"];
    let earlier =
        ["DTSTART:20240301T100000", "DTEND:20240301T113000", "SUMMARY:Grafika Ćw s. 7 bis"];
    let events = parse_ical_in(&calendar(&[&later, &ALGORITHMS, &earlier]), &UTC, true).unwrap();
    let names: Vec<&str> = events.iter().map(|e| e.event_name.as_str()).collect();
    assert_eq!(names, vec!["Bazy", "Algorytmy", "Grafika"]);
    assert_eq!(events[0].location, "A/12");
    assert_eq!(events[2].event_type, "Ćw");
    assert_eq!(events[2].location, "7 bis");
    assert_eq!(events[0].from, at(1_712_052_000));
}

#[test]
fn other_properties_are_ignored() {
    let entry = [
        "UID:42@example",
        "DTSTAMP:20240101T000000Z",
        "DTSTART;TZID=Europe/Warsaw:20240401T080000",
        "LOCATION:elsewhere",
        "DTEND:20240401T095000",
        "DESCRIPTION:Algorytmy X s. 999",
        "SUMMARY:Algorytmy W s. 101",
    ];
    assert_eq!(parse_ical_in(&calendar(&[&entry]), &UTC, true), Ok(vec![algorithms()]));
}

#[test]
fn folded_line_is_one_property() {
    let entry = ["DTSTART:20240401T080000", "DTEND:20240401T095000", "SUMMARY:Algorytmy W\r\n  s. 101"];
    assert_eq!(parse_ical_in(&calendar(&[&entry]), &UTC, true), Ok(vec![algorithms()]));
}

#[test]
fn last_of_a_repeated_property_counts() {
    let entry = [
        "DTSTART:20200101T000000",
        "SUMMARY:Stare X s. 1",
        "DTSTART:20240401T080000",
        "DTEND:20240401T095000",
        "SUMMARY:Algorytmy W s. 101",
    ];
    assert_eq!(parse_ical_in(&calendar(&[&entry]), &UTC, true), Ok(vec![algorithms()]));
}

#[test]
fn last_of_a_repeated_property_counts_even_without_a_value() {
    let entry = [
        "DTSTART:20240401T080000",
        "DTEND:20240401T095000",
        "SUMMARY:Algorytmy W s. 101",
        "SUMMARY:",
    ];
    assert_eq!(parse_ical_in(&calendar(&[&entry]), &UTC, true), Err(ParseError::MissingSummary));
}

#[test]
fn empty_buffer_is_an_empty_feed() {
    assert_eq!(parse_ical_in(b"", &UTC, true), Err(ParseError::EmptyFeed));
    assert_eq!(parse_ical_in(b"\r\n\r\n", &UTC, true), Err(ParseError::EmptyFeed));
    assert_eq!(parse_ical(b""), Err(ParseError::EmptyFeed));
}

#[test]
fn text_that_is_no_calendar_is_refused() {
    assert_eq!(parse_ical_in(b"<html></html>", &UTC, true), Err(ParseError::InvalidFeed));
    assert_eq!(parse_ical_in(b"BEGIN:VCARD\r\nEND:VCARD\r\n", &UTC, true), Err(ParseError::InvalidFeed));
    assert_eq!(parse_ical(b"hello"), Err(ParseError::InvalidFeed));
}

#[test]
fn calendar_that_is_cut_short_is_refused() {
    let feed = "BEGIN:VCALENDAR\r\nBEGIN:VEVENT\r\nDTSTART:20240401T080000\r\n";
    assert_eq!(parse_ical_in(feed.as_bytes(), &UTC, true), Err(ParseError::InvalidFeed));
}

#[test]
fn calendar_without_events_gives_no_events() {
    assert_eq!(parse_ical_in(&calendar(&[]), &UTC, true), Ok(vec![]));
    assert_eq!(parse_ical(&calendar(&[])), Ok(vec![]));
}

#[test]
fn calendar_without_events_has_nothing_to_show() {
    let events = parse_ical_in(&calendar(&[]), &UTC, true).unwrap();
    let now = timetable::time::Instant { seconds: START, nanos: 0 };
    let shown = timetable::table::select_events_at(events, true, &now);
    assert_eq!(shown, Err(timetable::table::NoEvents));
    assert_eq!(shown.unwrap_err().message(), "no events to be shown");
}

#[test]
fn only_the_first_calendar_is_read() {
    let mut feed = calendar(&[&ALGORITHMS]);
    feed.extend_from_slice(&calendar(&[&["SUMMARY:broken"]]));
    assert_eq!(parse_ical_in(&feed, &UTC, true), Ok(vec![algorithms()]));
}

#[test]
fn entry_without_start_fails() {
    let entry = ["DTEND:20240401T095000", "SUMMARY:Algorytmy W s. 101"];
    assert_eq!(parse_ical_in(&calendar(&[&entry]), &UTC, true), Err(ParseError::MissingStart));
}

#[test]
fn entry_without_end_fails() {
    let entry = ["DTSTART:20240401T080000", "SUMMARY:Algorytmy W s. 101"];
    assert_eq!(parse_ical_in(&calendar(&[&entry]), &UTC, true), Err(ParseError::MissingEnd));
}

#[test]
fn entry_without_summary_fails() {
    let entry = ["DTSTART:20240401T080000", "DTEND:20240401T095000"];
    assert_eq!(parse_ical_in(&calendar(&[&entry]), &UTC, true), Err(ParseError::MissingSummary));
}

#[test]
fn entry_with_malformed_summary_fails() {
    let glued = ["DTSTART:20240401T080000", "DTEND:20240401T095000", "SUMMARY:AlgorytmyW s. 101"];
    let bare = ["DTSTART:20240401T080000", "DTEND:20240401T095000", "SUMMARY:Algorytmy W 101"];
    assert_eq!(
        parse_ical_in(&calendar(&[&glued]), &UTC, true),
        Err(ParseError::SummaryWithoutKind)
    );
    assert_eq!(
        parse_ical_in(&calendar(&[&bare]), &UTC, true),
        Err(ParseError::SummaryWithoutLocation)
    );
}

#[test]
fn entry_with_malformed_timestamp_fails() {
    let dateless = ["DTSTART:20240401", "DTEND:20240401T095000", "SUMMARY:Algorytmy W s. 101"];
    let wrong = ["DTSTART:20240401T080000", "DTEND:20240401T0950", "SUMMARY:Algorytmy W s. 101"];
    assert_eq!(
        parse_ical_in(&calendar(&[&dateless]), &UTC, true),
        Err(ParseError::TimestampWithoutMarker)
    );
    assert_eq!(
        parse_ical_in(&calendar(&[&wrong]), &UTC, true),
        Err(ParseError::TimestampUnreadable)
    );
}

#[test]
fn start_is_looked_at_before_end_and_summary() {
    let entry = ["DTSTART:bad", "DTEND:T", "SUMMARY:none"];
    assert_eq!(
        parse_ical_in(&calendar(&[&entry]), &UTC, true),
        Err(ParseError::TimestampWithoutMarker)
    );
    let entry = ["DTSTART:20240401T080000", "DTEND:T", "SUMMARY:none"];
    assert_eq!(
        parse_ical_in(&calendar(&[&entry]), &UTC, true),
        Err(ParseError::TimestampUnreadable)
    );
    let entry = ["DTEND:T", "SUMMARY:none"];
    assert_eq!(parse_ical_in(&calendar(&[&entry]), &UTC, true), Err(ParseError::MissingStart));
}

#[test]
fn first_entry_that_fails_decides() {
    let no_end = ["DTSTART:20240401T080000", "SUMMARY:Algorytmy W s. 101"];
    let no_summary = ["DTSTART:20240401T080000", "DTEND:20240401T095000"];
    assert_eq!(
        parse_ical_in(&calendar(&[&ALGORITHMS, &no_end, &no_summary]), &UTC, true),
        Err(ParseError::MissingEnd)
    );
    assert_eq!(
        parse_ical_in(&calendar(&[&no_summary, &ALGORITHMS, &no_end]), &UTC, true),
        Err(ParseError::MissingSummary)
    );
}

#[test]
fn one_bad_entry_fails_the_whole_feed() {
    let bad = ["DTSTART:20240401T080000", "DTEND:20240401T095000", "SUMMARY:Algorytmy W 101"];
    assert_eq!(
        parse_ical_in(&calendar(&[&ALGORITHMS, &ALGORITHMS, &bad]), &UTC, true),
        Err(ParseError::SummaryWithoutLocation)
    );
}

#[test]
fn events_are_shifted_by_the_offset_of_the_zone() {
    let events = parse_ical_in(&calendar(&[&ALGORITHMS]), &Zone::Fixed(7200), true).unwrap();
    assert_eq!(events[0].from, Timestamp { seconds: START, offset: 7200 });
    assert_eq!(events[0].to, Timestamp { seconds: END, offset: 7200 });
    assert_eq!(format_date(events[0].from, events[0].to), "2024-04-01, 10:00-11:50");
}

#[test]
fn events_keep_their_time_with_the_shift_off() {
    let events = parse_ical_in(&calendar(&[&ALGORITHMS]), &Zone::Fixed(7200), false).unwrap();
    assert_eq!(events[0].from, Timestamp { seconds: START - 7200, offset: 7200 });
    assert_eq!(format_date(events[0].from, events[0].to), "2024-04-01, 08:00-09:50");
}

#[test]
fn feed_is_read_in_the_zone_of_the_machine() {
    let events = parse_ical(&calendar(&[&ALGORITHMS])).unwrap();
    assert_eq!(events.len(), 1);
    assert_eq!(events[0].event_name, "Algorytmy");
    assert_eq!(events[0].event_type, "W");
    assert_eq!(events[0].location, "101");
    assert_eq!(events[0].to.seconds - events[0].from.seconds, END - START);
}

#[test]
fn property_is_picked_by_name() {
    let props = vec![
        property("SUMMARY", Some("first")),
        property("DTSTART", Some("start")),
        property("SUMMARY", Some("second")),
        property("DTEND", None),
        property("summary", Some("lower case")),
    ];
    assert_eq!(pick(&props, "SUMMARY"), Some(&"second".to_owned()));
    assert_eq!(pick(&props, "DTSTART"), Some(&"start".to_owned()));
    assert_eq!(pick(&props, "DTEND"), None);
    assert_eq!(pick(&props, "UID"), None);
    assert_eq!(pick(&Vec::new(), "SUMMARY"), None);
}

#[test]
fn entry_is_read_from_its_properties() {
    let props = vec![
        property("DTSTART", Some("20240401T080000")),
        property("DTEND", Some("20240401T095000")),
        property("SUMMARY", Some("Algorytmy W s. 101")),
    ];
    assert_eq!(read_entry(&props, &UTC, true), Ok(algorithms()));
    assert_eq!(read_entry(&props[1..].to_vec(), &UTC, true), Err(ParseError::MissingStart));
    assert_eq!(read_entry(&Vec::new(), &UTC, true), Err(ParseError::MissingStart));
}

#[test]
fn entries_are_read_in_order_up_to_the_first_failure() {
    let good = vec![
        property("SUMMARY", Some("Algorytmy W s. 101")),
        property("DTEND", Some("20240401T095000")),
        property("DTSTART", Some("20240401T080000")),
    ];
    let endless = vec![property("DTSTART", Some("20240401T080000"))];
    let startless = vec![property("DTEND", Some("20240401T095000"))];
    assert_eq!(read_entries(&Vec::new(), &UTC, true), Ok(vec![]));
    assert_eq!(
        read_entries(&vec![good.clone(), good.clone()], &UTC, true),
        Ok(vec![algorithms(), algorithms()])
    );
    assert_eq!(
        read_entries(&vec![good.clone(), endless.clone(), startless.clone()], &UTC, true),
        Err(ParseError::MissingEnd)
    );
    assert_eq!(
        read_entries(&vec![startless, endless, good], &UTC, true),
        Err(ParseError::MissingStart)
    );
}

#[test]
fn parsed_events_are_well_formed() {
    let events = parse_ical_in(&calendar(&[&ALGORITHMS]), &Zone::Fixed(-3600), true).unwrap();
    assert!(events.iter().all(|e| e.is_wf()));
    let broken = Event { to: Timestamp { seconds: 0, offset: 86_400 }, ..algorithms() };
    assert!(!broken.is_wf());
    let early = Event { from: Timestamp { seconds: i64::MIN, offset: 0 }, ..algorithms() };
    assert!(!early.is_wf());
}

#[test]
fn years_have_four_digits() {
    let first = ["DTSTART:00000101T000000", "DTEND:99991231T235959", "SUMMARY:A W s. 1"];
    let read = parse_ical_in(&calendar(&[&first]), &UTC, true).unwrap();
    assert_eq!(read[0].from, at(-62_167_219_200));
    assert_eq!(read[0].to, at(253_402_300_799));
    assert_eq!(format_date(read[0].from, read[0].to), "0000-01-01, 00:00-23:59");
    let signed = ["DTSTART:+20240401T080000", "DTEND:20240401T095000", "SUMMARY:A W s. 1"];
    assert_eq!(
        parse_ical_in(&calendar(&[&signed]), &UTC, true),
        Err(ParseError::TimestampUnreadable)
    );
    let long = ["DTSTART:120240401T080000", "DTEND:20240401T095000", "SUMMARY:A W s. 1"];
    assert_eq!(
        parse_ical_in(&calendar(&[&long]), &UTC, true),
        Err(ParseError::TimestampUnreadable)
    );
}

#[test]
fn event_is_assembled_from_its_parts() {
    let summary = "Algorytmy W s. 101".to_owned();
    let unresolved = Err(ParseError::TimestampUnresolved);
    assert_eq!(assemble(Some(Ok(at(START))), Some(Ok(at(END))), Some(&summary)), Ok(algorithms()));
    assert_eq!(assemble(None, None, None), Err(ParseError::MissingStart));
    assert_eq!(assemble(Some(unresolved), None, None), Err(ParseError::TimestampUnresolved));
    assert_eq!(assemble(Some(Ok(at(START))), None, None), Err(ParseError::MissingEnd));
    assert_eq!(
        assemble(Some(Ok(at(START))), Some(unresolved), None),
        Err(ParseError::TimestampUnresolved)
    );
    assert_eq!(
        assemble(Some(Ok(at(START))), Some(Ok(at(END))), None),
        Err(ParseError::MissingSummary)
    );
}

#[test]
fn end_before_start_is_taken_as_it_stands() {
    let entry = ["DTSTART:20240401T095000", "DTEND:20240401T080000", "SUMMARY:Algorytmy W s. 101"];
    let events = parse_ical_in(&calendar(&[&entry]), &UTC, true).unwrap();
    assert_eq!(events[0].from, at(END));
    assert_eq!(events[0].to, at(START));
}

#[test]
fn failures_have_their_messages() {
    assert_eq!(ParseError::EmptyFeed.message(), "ical buffer is empty");
    assert_eq!(ParseError::InvalidFeed.message(), "ical parsing failed");
    assert_eq!(ParseError::MissingStart.message(), "DTSTART value is null");
    assert_eq!(ParseError::MissingEnd.message(), "DTEND value is null");
    assert_eq!(ParseError::MissingSummary.message(), "SUMMARY value is null");
    assert_eq!(ParseError::SummaryWithoutLocation.message(), "summary has length != 2");
    assert_eq!(ParseError::SummaryWithoutKind.message(), "event_split has length != 2");
    assert_eq!(ParseError::TimestampWithoutMarker.message(), "invalid datetime string");
    assert_eq!(ParseError::TimestampUnreadable.message(), "failed to parse naive datetime");
    assert_eq!(ParseError::TimestampUnresolved.message(), "local datetime cannot be resolved");
}
