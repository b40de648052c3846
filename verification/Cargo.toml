[package]
name = "device_status"
version = "0.1.0"
edition = "2021"
publish = false

[dependencies]
chrono = "*"
deadpool-redis = { version = "*", features = ["rt_tokio_1"] }
tokio = { version = "*", features = ["full"] }
axum = "*"
serde = { version = "*", features = ["derive"] }
serde_json = "*"
futures = "*"
