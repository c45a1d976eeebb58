//! Why a calendar feed could not be turned into events.

use vstd::prelude::*;

verus! {

/// The ways in which reading a calendar feed fails. The first entry that
/// fails decides; no partial list of events is given.
#[derive(Debug, Clone, Copy, PartialEq, Eq, Structural)]
pub enum ParseError {
    /// The feed holds no calendar at all.
    EmptyFeed,
    /// The feed is no well-formed calendar.
    InvalidFeed,
    /// An entry has no `DTSTART` value.
    MissingStart,
    /// An entry has no `DTEND` value.
    MissingEnd,
    /// An entry has no `SUMMARY` value.
    MissingSummary,
    /// A summary lacks the separator before the location.
    SummaryWithoutLocation,
    /// The part of a summary before the location lacks the space between
    /// name and kind.
    SummaryWithoutKind,
    /// A timestamp lacks the `T` between date and time.
    TimestampWithoutMarker,
    /// A timestamp does not read as fourteen digits of date and time.
    TimestampUnreadable,
    /// A timestamp names a wall-clock time that the zone does not have
    /// exactly once, or one that lies outside the supported years.
    TimestampUnresolved,
}

impl ParseError {
    /// The message by which the failure is reported.
    pub open spec fn text(self) -> Seq<char> {
        match self {
            ParseError::EmptyFeed => "ical buffer is empty"@,
            ParseError::InvalidFeed => "ical parsing failed"@,
            ParseError::MissingStart => "DTSTART value is null"@,
            ParseError::MissingEnd => "DTEND value is null"@,
            ParseError::MissingSummary => "SUMMARY value is null"@,
            ParseError::SummaryWithoutLocation => "summary has length != 2"@,
            ParseError::SummaryWithoutKind => "event_split has length != 2"@,
            ParseError::TimestampWithoutMarker => "invalid datetime string"@,
            ParseError::TimestampUnreadable => "failed to parse naive datetime"@,
            ParseError::TimestampUnresolved => "local datetime cannot be resolved"@,
        }
    }

    /// The message by which the failure is reported.
    pub fn message(&self) -> (r: &'static str)
        ensures
            r@ == self.text(),
    {
        match self {
            ParseError::EmptyFeed => "ical buffer is empty",
            ParseError::InvalidFeed => "ical parsing failed",
            ParseError::MissingStart => "DTSTART value is null",
            ParseError::MissingEnd => "DTEND value is null",
            ParseError::MissingSummary => "SUMMARY value is null",
            ParseError::SummaryWithoutLocation => "summary has length != 2",
            ParseError::SummaryWithoutKind => "event_split has length != 2",
            ParseError::TimestampWithoutMarker => "invalid datetime string",
            ParseError::TimestampUnreadable => "failed to parse naive datetime",
            ParseError::TimestampUnresolved => "local datetime cannot be resolved",
        }
    }
}

} // verus!
