[package]
name = "loquaz"
version = "0.1.0"
edition = "2021"
publish = false

[dependencies]
nostr = { version = "=0.45.5", features = ["std", "nip04", "rand", "os-rng"] }
uuid = { version = "=1.29.0", features = ["v4"] }
url = "=2.5.8"
chrono = "=0.4.45"
serde = { version = "=1.0.229", features = ["derive"] }
serde_json = "=1.0.154"
tokio = { version = "=1.54.1", features = ["rt-multi-thread", "macros", "sync", "net", "time"] }
tokio-tungstenite = "=0.30.0"
futures = "=0.3.34"
home = "=0.5.12"
log = "=0.4.34"
env_logger = "=0.11.11"
thiserror = "=2.0.21"
