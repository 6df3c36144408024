[package]
name = "kokoros"
version = "0.1.0"
edition = "2021"
publish = false

[dependencies]
axum = "*"
clap = { version = "*", features = ["derive"] }
espeak-rs = "*"
hound = "*"
ndarray = "*"
ort = { version = "=2.0.0-rc.13", default-features = false, features = ["std", "cuda"] }
serde = { version = "*", features = ["derive"] }
serde_json = "*"
tokio = { version = "*", features = ["rt-multi-thread", "net", "macros"] }
tower-http = { version = "*", features = ["cors"] }
