[package]
name = "session_cache"
version = "0.1.0"
edition = "2021"
publish = false

[dependencies]
base64 = "0.13"
rand = "0.8"
rocket = { version = "0.5", features = ["json"] }
sqlx = { version = "0.8", default-features = false, features = ["sqlite", "runtime-tokio"] }
tokio = { version = "1", features = ["sync"] }
serde = { version = "1", features = ["derive"] }
askama = "0.12"
tracing = "0.1"
tracing-subscriber = "0.3"
