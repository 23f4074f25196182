[package]
name = "astra_logger_rs"
version = "0.1.0"
edition = "2021"
publish = false

[dependencies]
chrono = "0.4"
clap = { version = "4", features = ["derive"] }
crossterm = "0.25"
eyre = "0.6"
sysinfo = "0.30"
tokio = { version = "1", features = ["rt", "macros"] }
tui = "0.19"

[dev-dependencies]
serde_json = "1"
