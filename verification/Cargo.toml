[package]
name = "ayiou"
version = "0.1.0"
edition = "2021"
publish = false

[dependencies]
anyhow = "=1.0.104"
async-trait = "=0.1.92"
axum = "0.8"
chrono = "=0.4.45"
clap = { version = "4", features = ["derive"] }
cron = "=0.17.0"
dashmap = "=6.2.1"
futures = "0.3"
inventory = "0.3"
log = "=0.4.35"
mime_guess = "2"
once_cell = "1"
parking_lot = "0.12"
regex = "=1.13.1"
reqwest = { version = "0.12", default-features = false, features = ["json", "rustls-tls"] }
serde = { version = "=1.0.229", features = ["derive"] }
serde_json = "=1.0.154"
thiserror = "2"
tokio = { version = "=1.54.1", features = ["sync", "rt", "rt-multi-thread", "macros", "time", "fs", "io-util", "io-std", "net"] }
toml = "=1.1.8"
tracing = "0.1"
