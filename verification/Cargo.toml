[package]
name = "rust_rsi"
version = "0.1.0"
edition = "2021"
publish = false

[dependencies]
chrono = "0.4"
rdkafka = "*"
serde = { version = "1", features = ["derive"] }
serde_json = "1"
tokio = { version = "1", features = ["macros", "rt-multi-thread", "signal"] }
tokio-stream = "0.1"
