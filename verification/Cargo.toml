[package]
name = "clavirio"
version = "0.1.0"
edition = "2021"
publish = false

[dependencies]
crossterm = "0.28"
ratatui = "0.29"
serde = { version = "1", features = ["derive"] }
serde_json = "1"
time = { version = "0.3", features = ["formatting", "local-offset"] }
tokio = { version = "1", features = ["rt", "macros", "sync", "signal", "time"] }
toml = "0.8"
