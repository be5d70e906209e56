[package]
name = "baffao"
version = "0.1.0"
edition = "2021"
publish = false

[dependencies]
anyhow = "1"
axum = "0.7"
axum-extra = { version = "0.9", features = ["cookie"] }
base64 = "0.22"
chrono = "0.4"
config = "0.14"
cookie = "0.18"
hex = "0.4"
hyper-util = { version = "0.1", features = ["client-legacy", "http1", "tokio"] }
oauth2 = { version = "4", default-features = false, features = ["reqwest"] }
reqwest = { version = "0.11", default-features = false }
ring = "0.17"
serde = { version = "1", features = ["derive"] }
serde_json = "1"
tokio = { version = "1", features = ["full"] }
tower = { version = "0.4", features = ["timeout", "util"] }
tower-http = { version = "0.5", features = ["trace"] }
tracing = "0.1"
tracing-subscriber = { version = "0.3", features = ["env-filter"] }
