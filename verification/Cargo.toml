[package]
name = "orqos"
version = "0.1.0"
edition = "2021"
publish = false

[dependencies]
anyhow = "*"
axum = { version = "*", features = ["ws"] }
bollard = "*"
dashmap = "*"
flate2 = "*"
futures-util = "*"
infer = "*"
rand = "*"
serde = { version = "*", features = ["derive"] }
serde_json = "*"
tar = "*"
tokio = { version = "*", features = ["macros", "net", "rt-multi-thread", "signal", "sync", "time"] }
tracing = "*"
tracing-subscriber = "*"
