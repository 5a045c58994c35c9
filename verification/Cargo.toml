[package]
name = "apod_backend"
version = "0.1.0"
edition = "2021"
publish = false

[dependencies]
rust-argon2 = "2"
jsonwebtoken = "8"
cookie = "0.17"
serde_json = "1"
serde = { version = "1", features = ["derive"] }
axum = "0.6"
tokio = { version = "1", features = ["rt-multi-thread", "macros"] }
reqwest = { version = "0.11", default-features = false, features = ["json"] }
dotenvy = "0.15"
tower-http = { version = "0.4", features = ["cors", "trace"] }
tracing = "0.1"
tracing-subscriber = { version = "0.3", features = ["env-filter", "fmt"] }
