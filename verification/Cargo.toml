[package]
name = "eventsleuth"
version = "0.1.0"
edition = "2021"
publish = false

[dependencies]
regex = "1"
chrono = "0.4"
crossbeam-channel = "0.5"
csv = "1"
serde = { version = "1", features = ["derive"] }
serde_json = "1"
