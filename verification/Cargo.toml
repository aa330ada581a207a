[package]
name = "aisetu"
version = "0.1.0"
edition = "2021"
publish = false

[dependencies]
serde = { version = "1", features = ["derive"] }
serde_json = "1"
url = "2"
uuid = { version = "1", features = ["v4"] }
chrono = { version = "0.4", features = ["serde"] }
sha2 = "0.10"
hex = "0.4"
toml = "0.8"
dirs = "5"
thiserror = "1"
tokio = { version = "1", features = ["rt-multi-thread", "macros", "net", "signal", "time"] }
axum = "0.8"
tower = { version = "0.5", features = ["limit", "util"] }
tower-http = { version = "0.6", features = ["cors", "timeout", "trace"] }
tracing = "0.1"
tracing-subscriber = { version = "0.3", features = ["env-filter", "json"] }
futures = "0.3"
async-trait = "0.1"
parking_lot = "0.12"
zeroize = { version = "1", features = ["derive"] }
