[package]
name = "account_eventsourcing"
version = "0.1.0"
edition = "2021"
publish = false

[dependencies]
serde_json = "1"
serde = { version = "1", features = ["derive"] }
chrono = "0.4"
uuid = { version = "*", features = ["v4"] }
cdrs = "2"
cdrs_helpers_derive = "*"
eventsourcing = "*"
eventsourcing-derive = "*"
