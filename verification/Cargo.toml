[package]
name = "aabot"
version = "0.1.0"
edition = "2021"
publish = false

[dependencies]
serde = { version = "1", features = ["derive"] }
serde_json = "1"
pulldown-cmark = { version = "0.12", default-features = false }
glob = "0.3"
regex = "1"
uuid = { version = "1", features = ["v4"] }
chrono = "0.4"
tokio = { version = "1", features = ["full"] }
tokio-util = "0.7"
reqwest = { version = "0.12", default-features = false, features = ["json", "stream"] }
axum = { version = "0.8", features = ["ws"] }
futures-util = "0.3"
clap = { version = "4", features = ["derive"] }
crossterm = "0.28"
ratatui = "0.29"
tracing = "0.1"
tracing-subscriber = "0.3"
anyhow = "1"
thiserror = "2"
async-trait = "0.1"
utoipa = "5"
nix = { version = "0.29", features = ["term", "fs", "process"] }
libc = "0.2"
parking_lot = "0.12"
mdns-sd = "0.13"
