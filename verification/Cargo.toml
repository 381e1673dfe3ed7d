[package]
name = "sirpent"
version = "0.1.0"
edition = "2021"
publish = false

[dependencies]
rand = "0.8"
uuid = { version = "1", features = ["v4"] }
futures = "0.1"
tokio-core = "0.1"
tokio-io = "0.1"
tokio-timer = "0.1"
bytes = "0.4"
serde = { version = "1", features = ["derive"] }
serde_json = "1"
kabuki = "*"
log = "0.4"
env_logger = "0.4"
error-chain = "0.12"

[dev-dependencies]
quickcheck = "1"
