[package]
name = "gallery_core"
version = "0.1.0"
edition = "2021"
publish = false

[dependencies]
image = { version = "=0.25.10", default-features = false, features = ["png", "jpeg", "webp", "gif", "bmp"] }
ulid = "=1.2.1"
axum = { version = "=0.8.9", features = ["multipart"] }
tokio = { version = "=1.53.2", features = ["rt-multi-thread", "macros", "net", "fs", "io-util"] }
serde = { version = "=1.0.229", features = ["derive"] }
serde_json = "=1.0.151"
