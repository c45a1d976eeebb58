//! Timetable retrieval for a university scheduling portal.
//!
//! A student's timetable is fetched from the portal as a calendar feed,
//! read into events, cut down to the coming two weeks and shown as a table.
//! This library holds the rules of each step:
//!
//! - [`portal`] decides what is sent to the portal in each of the three
//!   exchanges that lead to the feed, and what each reply means;
//! - [`parser`] turns the feed into [`event::Event`]s, with the help of
//!   [`time`] for the timestamps and [`text`] for the summaries;
//! - [`event`] holds the events and the window of time in which they count;
//! - [`table`] chooses the events to show and fills the table with them.
//!
//! The exchanges themselves, the command line and the printing belong to
//! the program that uses the library.

pub mod error;
pub mod event;
pub mod parser;
pub mod portal;
pub mod table;
pub mod text;
pub mod time;

pub use error::ParseError;
pub use event::Event;
pub use parser::parse_ical;
