[package]
name = "highlights"
version = "2.1.6"
edition = "2021"
publish = false

[dependencies]
regex = "=1.13.1"
chrono = { version = "=0.4.45", default-features = false, features = ["clock", "std"] }
base64 = "=0.13.1"
url = "=2.5.8"
uuid = { version = "=1.29.0", features = ["v4"] }
log = "=0.4.35"
serenity = { version = "=0.11.7", default-features = false, features = ["builder", "cache", "client", "collector", "gateway", "http", "model", "utils", "rustls_backend"] }
tokio = { version = "=1.54.1", features = ["macros", "rt-multi-thread", "time", "sync"] }
rusqlite = { version = "=0.29.0", features = ["bundled"] }
rand = "=0.8.8"
dashmap = "=5.5.3"
serde = { version = "=1.0.229", features = ["derive"] }
config = { version = "0.13", default-features = false, features = ["toml"] }
prometheus = { version = "0.13", default-features = false }
humantime = "2"
