[package]
name = "minitools"
version = "0.1.0"
edition = "2021"
publish = false

[dependencies]
sysinfo = "0.29"
path-clean = "1"
ratatui = "0.29"
crossterm = { version = "0.28", features = ["event-stream"] }
tokio = { version = "1", features = ["full"] }
futures = "0.3"
futures-util = "0.3"
reqwest = { version = "0.12", default-features = false, features = ["json", "blocking", "stream", "rustls-tls"] }
serde = { version = "1", features = ["derive"] }
serde_json = "1"
clap = { version = "4", features = ["derive"] }
walkdir = "2"
fs_extra = "1"
anyhow = "1"
