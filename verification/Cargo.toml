[package]
name = "midinet"
version = "0.1.0"
edition = "2021"
publish = false

[dependencies]
alsa = "=0.9.1"
anyhow = "=1.0.104"
axum = { version = "=0.7.9", features = ["ws"] }
clap = { version = "=4.6.7", features = ["derive"] }
coremidi = "0.8"
libc = "=0.2.191"
mdns-sd = "=0.11.5"
reqwest = { version = "=0.12.28", default-features = false, features = ["json"] }
rosc = "=0.10.1"
rusqlite = { version = "=0.31.0", features = ["bundled"] }
serde = { version = "=1.0.229", features = ["derive"] }
serde_json = "=1.0.154"
socket2 = { version = "=0.5.10", features = ["all"] }
sysinfo = "=0.32.1"
tokio = { version = "=1.54.1", features = ["full"] }
tokio-util = "=0.7.20"
toml = "=0.8.23"
tracing = "=0.1.44"
tracing-subscriber = { version = "=0.3.23", features = ["env-filter"] }
