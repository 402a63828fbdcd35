[package]
name = "gmap"
version = "0.1.0"
edition = "2021"
publish = false

[dependencies]
anyhow = "=1.0.104"
chrono = { version = "=0.4.45", features = ["serde"] }
clap = { version = "=4.6.7", features = ["derive"] }
console = "=0.15.11"
crossterm = "=0.28.1"
gix = "=0.90.0"
ignore = "=0.4.33"
indicatif = "=0.17.11"
ratatui = "=0.29.0"
rusqlite = { version = "=0.41.0", features = ["bundled"] }
serde = { version = "=1.0.229", features = ["derive"] }
serde_json = "=1.0.154"
thiserror = "=1.0.69"
