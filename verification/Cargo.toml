[package]
name = "job_queue"
version = "0.1.0"
edition = "2021"
publish = false

[dependencies]
time = "0.3"
axum = "*"
serde = { version = "1", features = ["derive"] }
serde_json = "1"
thiserror = "*"
