[package]
name = "timesplit"
version = "0.1.0"
edition = "2021"
publish = false

[dependencies]
base64 = "0.22"
rust-ini = "0.21"
serde = { version = "1", features = ["derive"] }
serde_json = "1"
toml = "0.8"
config = { version = "0.15", default-features = false, features = ["toml"] }
axum = "0.8"
reqwest = { version = "0.12", default-features = false, features = ["json", "rustls-tls"] }
tokio = { version = "1", features = ["full"] }
tower-http = { version = "0.6", features = ["trace"] }
tracing = "0.1"
tracing-subscriber = { version = "0.3", features = ["env-filter"] }
clap = { version = "4", features = ["derive"] }
dirs = "*"
