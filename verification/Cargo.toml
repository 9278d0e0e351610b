[package]
name = "perch"
version = "0.1.0"
edition = "2021"
publish = false

[dependencies]
serde = { version = "1", features = ["derive"] }
serde_json = "1"
log = "0.4"
env_logger = { version = "0.11", default-features = false }
tokio = { version = "1", features = ["rt-multi-thread", "net", "time", "sync"] }
axum = { version = "0.8", default-features = false, features = ["http1", "tokio", "json"] }
reqwest = { version = "0.12", default-features = false, features = ["stream"] }
futures = { version = "0.3", default-features = false, features = ["std"] }
libc = "0.2"
