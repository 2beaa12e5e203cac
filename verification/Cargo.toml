[package]
name = "rustydocker"
version = "0.5.0"
edition = "2021"
publish = false

[dependencies]
anyhow = "=1.0.104"
bollard = { version = "=0.21.1", features = ["ssl", "ssh"] }
chrono = "=0.4.45"
clap = { version = "=4.6.7", features = ["derive"] }
crossterm = "=0.28.1"
dirs = "=7.0.0"
futures-util = "=0.3.34"
fuzzy-matcher = "=0.3.7"
ratatui = "=0.29.0"
regex = "=1.13.1"
semver = "=1.0.28"
serde = { version = "=1.0.229", features = ["derive"] }
serde_json = "=1.0.154"
serde_yaml = "=0.9.34"
tokio = { version = "=1.54.1", features = ["full"] }
toml = "=1.1.8"
unicode-width = "=0.1.14"
