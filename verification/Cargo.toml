[package]
name = "engram"
version = "0.1.0"
edition = "2021"
publish = false

[dependencies]
sha2 = "0.10"
hex = "0.4"
url = "2"
chrono = "0.4"
chrono-tz = "0.10"
mime_guess = "2"
qrcode = { version = "0.14", default-features = false, features = ["svg"] }
serde = { version = "1", features = ["derive"] }
serde_json = "1"
axum = { version = "0.8", features = ["multipart"] }
tokio = { version = "1", features = ["rt", "sync", "time"] }
tokio-stream = "0.1"
async-stream = "0.3"
tracing = "0.1"
