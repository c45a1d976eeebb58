[package]
name = "timetable"
version = "0.1.0"
edition = "2021"
publish = false

[dependencies]
anyhow = "1"
bytes = "1"
chrono = { version = "0.4", default-features = false, features = ["clock", "std"] }
clap = "2"
ical = { version = "*", default-features = false, features = ["ical"] }
prettytable-rs = { version = "0.10", default-features = false }
reqwest = { version = "0.11", features = ["blocking", "cookies", "multipart"] }
scraper = "*"
