[package]
name = "axum_grants"
version = "0.1.0"
edition = "2021"
publish = false

[dependencies]
axum = "*"
serde_json = "*"
tokio = { version = "*", features = ["full"] }
