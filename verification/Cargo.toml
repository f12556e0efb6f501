[package]
name = "agenticlaw"
version = "0.1.0"
edition = "2021"
publish = false

[dependencies]
serde = { version = "=1.0.229", features = ["derive"] }
serde_json = "=1.0.154"
toml = "=0.8.23"
chrono = "=0.4.45"
uuid = { version = "=1.29.0", features = ["v4"] }
dirs = "=5.0.1"
clap = { version = "=4.6.7", features = ["derive"] }
crossterm = "=0.28.1"
ratatui = "=0.29.0"
anyhow = "=1.0.104"
dashmap = "*"
