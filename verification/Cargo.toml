[package]
name = "ttl"
version = "0.1.0"
edition = "2021"
publish = false

[dependencies]
anyhow = "=1.0.104"
chrono = { version = "=0.4.45", features = ["serde"] }
clap = { version = "=4.6.7", features = ["derive"] }
clap_complete = "=4.6.11"
crossterm = "=0.29.0"
dirs = "=7.0.0"
futures = "=0.3.34"
hickory-resolver = "=0.26.3"
ipnetwork = "=0.21.1"
is-terminal = "=0.4.17"
libc = "=0.2.191"
maxminddb = "=0.32.0"
parking_lot = "=0.12.5"
pnet = "=0.35.0"
ratatui = "=0.30.2"
reqwest = { version = "=0.12.28", default-features = false, features = ["json", "rustls-tls"] }
scopeguard = "=1.2.0"
serde = { version = "=1.0.229", features = ["derive"] }
serde_json = "=1.0.154"
socket2 = { version = "=0.6.5", features = ["all"] }
tokio = { version = "=1.54.1", features = ["full"] }
tokio-util = "=0.7.20"
toml = "=1.1.8"
update-informer = { version = "=1.3.0", features = ["github"] }
