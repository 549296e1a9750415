[package]
name = "liquidation_monitor"
version = "0.1.0"
edition = "2021"
publish = false

[dependencies]
anyhow = "1"
async-trait = "0.1"
cached = "*"
chrono = { version = "0.4", features = ["serde"] }
rocket = "0.5"
rust_decimal = "1"
serde = { version = "1", features = ["derive"] }
serde_json = "1"
surf = { version = "2", default-features = false, features = ["h1-client-rustls"] }
tokio = { version = "1", features = ["rt-multi-thread", "macros", "sync"] }
tracing = "0.1"
tracing-subscriber = "0.3"
tungstenite = "*"
url = "2"
