[package]
name = "peertlshake"
version = "0.1.0"
edition = "2021"
publish = false

[dependencies]
anyhow = "*"
dotenv = "*"
parking_lot = "*"
rustls-pemfile = "*"
tokio = { version = "*", features = ["full"] }
tokio-rustls = "*"
tracing = "*"
tracing-subscriber = { version = "*", features = ["env-filter"] }
