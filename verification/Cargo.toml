[package]
name = "conduit5"
version = "0.1.0"
edition = "2021"
publish = false

[dependencies]
ipnet = "2"
anyhow = "1"
serde = { version = "1", features = ["derive"] }
toml = "*"
tokio = { version = "1", features = ["rt-multi-thread", "macros", "net", "io-util"] }
tracing = "0.1"
tracing-subscriber = "0.3"
