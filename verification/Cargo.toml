[package]
name = "robo_radio"
version = "0.1.0"
edition = "2021"
publish = false

[dependencies]
anyhow = "*"
async-trait = "*"
axum = { version = "*", features = ["ws"] }
chrono = "*"
futures = "*"
rand = "*"
regex = "*"
reqwest = { version = "*", default-features = false, features = ["json"] }
reqwest-middleware = "*"
reqwest-retry = "*"
serde = { version = "*", features = ["derive"] }
serde_json = "*"
thiserror = "*"
tokio = { version = "*", features = ["full"] }
tokio-stream = "*"
tower-http = { version = "*", features = ["trace", "set-header", "fs"] }
tracing = "*"
tracing-subscriber = { version = "*", features = ["env-filter"] }
