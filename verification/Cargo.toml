[package]
name = "link_store"
version = "0.1.0"
edition = "2021"
publish = false

[dependencies]
nanoid = "=0.4.0"
getrandom = "=0.2.17"
anyhow = "=1.0.104"
axum = "=0.8.9"
serde = { version = "=1.0.229", features = ["derive"] }
shuttle-axum = "=0.57.0"
shuttle-runtime = "=0.57.0"
tokio = { version = "=1.54.1", features = ["sync", "time", "rt", "macros"] }
