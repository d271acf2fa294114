[package]
name = "rtiles"
version = "0.1.0"
edition = "2021"
publish = false

[dependencies]
bytes = "=1.12.1"
moka = { version = "=0.9.9", features = ["future", "dash"] }
reqwest = "=0.11.27"
rocket = { version = "=0.5.2", features = ["json"] }
rocket-cache-response = "=0.6.4"
serde = { version = "=1.0.229", features = ["derive"] }
tokio = { version = "=1.54.1", features = ["fs", "io-util", "macros", "rt", "rt-multi-thread", "sync", "time"] }

[dev-dependencies]
serde_json = "=1.0.154"
