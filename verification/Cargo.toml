[package]
name = "athen_app"
version = "0.1.0"
edition = "2021"
publish = false

[dependencies]
async-trait = "0.1"
chrono = "0.4"
futures = "0.3"
imap = { version = "2.4", default-features = false }
reqwest = { version = "0.12", default-features = false, features = ["json", "rustls-tls"] }
rustls-connector = "*"
serde = { version = "1", features = ["derive"] }
serde_json = "1"
sysinfo = "0.30"
tokio = { version = "1", features = ["rt-multi-thread", "macros", "time", "sync", "fs", "net", "io-util"] }
tokio-util = "0.7"
toml = "0.8"
tracing = "0.1"
url = "2"
uuid = { version = "1", features = ["v4"] }
