[package]
name = "gulfstream"
version = "0.1.0"
edition = "2021"
publish = false

[dependencies]
anyhow = "1"
argon2 = "*"
axum = { version = "0.8", features = ["multipart"] }
base64 = "*"
chrono = { version = "*", features = ["serde"] }
futures-util = "*"
hex = "*"
hmac = "*"
reqwest = { version = "*", default-features = false, features = ["stream"] }
serde = { version = "1", features = ["derive"] }
serde_json = "1"
sha2 = "*"
sqlx = { version = "*", default-features = false, features = ["runtime-tokio", "sqlite", "migrate"] }
subtle = "*"
thiserror = "*"
tokio = { version = "1", features = ["full"] }
tokio-util = { version = "*", features = ["io"] }
toml = "*"
tower = { version = "*", features = ["limit"] }
tower-http = { version = "*", features = ["cors", "compression-gzip", "limit", "fs", "trace", "catch-panic"] }
tracing = "*"
tracing-subscriber = { version = "*", features = ["env-filter", "json"] }
uuid = { version = "*", features = ["v4"] }
