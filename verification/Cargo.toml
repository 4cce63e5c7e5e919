[package]
name = "netcode_auth"
version = "0.1.0"
edition = "2021"
publish = false

[dependencies]
rand = "0.9"
lightyear_netcode = "0.25"
bevy_platform = "0.17"
serde = { version = "1", features = ["derive"] }
serde_json = "1"
axum = "0.8"
tokio = { version = "1", features = ["net", "rt-multi-thread", "macros"] }
tower-http = { version = "0.6", features = ["cors"] }
ehttp = { version = "0.5", features = ["native-async"] }
async-compat = "0.2"
tracing = "0.1"
