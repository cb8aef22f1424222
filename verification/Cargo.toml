[package]
name = "slot_suggester"
version = "0.1.0"
edition = "2021"
publish = false

[dependencies]
anyhow = "1"
chrono = "0.4"
chrono-tz = "*"
clap = { version = "4", features = ["derive"] }
colored = "2"
ical = "*"
prettytable-rs = "0.10"
