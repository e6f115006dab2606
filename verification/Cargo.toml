[package]
name = "buildkit"
version = "0.1.0"
edition = "2021"
publish = false

[dependencies]
chrono = { version = "0.4", features = ["serde"] }
serde = { version = "1", features = ["derive"] }
serde_json = "1"
log = "0.4"
tokio = { version = "1", features = ["io-std", "io-util", "rt", "net"] }
hyper-util = { version = "0.1", features = ["tokio"] }
tonic = "0.12"
tower = { version = "0.4", features = ["util"] }
