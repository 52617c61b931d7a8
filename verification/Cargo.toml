[package]
name = "countries"
version = "0.1.0"
edition = "2021"
publish = false

[dependencies]
regex = "1"
serde = { version = "1", features = ["derive"] }
serde_json = "1"
once_cell = "1"
log = "0.4"
axum = "0.7"
tokio = { version = "1", features = ["full"] }
tracing-subscriber = "0.3"
