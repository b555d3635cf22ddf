[package]
name = "telemetry_ingest"
version = "0.1.0"
edition = "2021"
publish = false

[dependencies]
chrono = { version = "0.4", default-features = false, features = ["std"] }
regex = "1"
serde = { version = "1", features = ["derive"] }
serde_json = "1"
sqlite = "*"
serialport = { version = "4", default-features = false }
log = "0.4"
log4rs = "1"
exitcode = "1"
