[package]
name = "slot_race"
version = "0.1.0"
edition = "2021"
publish = false

[dependencies]
anyhow = "1"
backoff = "0.4"
bs58 = "0.5"
futures = "0.3"
serde = { version = "1", features = ["derive"] }
tokio = { version = "1", features = ["full"] }
tokio-stream = "0.1"
toml = "*"
tonic = "*"
tracing = "0.1"
tracing-subscriber = "0.3"
yellowstone-grpc-client = "*"
yellowstone-grpc-proto = { version = "*", default-features = false }
