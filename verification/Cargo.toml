[package]
name = "bank2ledger"
version = "0.1.0"
edition = "2021"
publish = false

[dependencies]
regex = "*"
chrono = "*"
csv = "*"
clap = { version = "*", features = ["derive"] }
config = "*"
serde = { version = "*", features = ["derive"] }
tracing = "*"
tracing-appender = "*"
tracing-core = "*"
tracing-subscriber = "*"
