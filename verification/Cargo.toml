[package]
name = "foundry_local_sdk"
version = "0.1.0"
edition = "2021"
publish = false

[dependencies]
futures-core = "0.3"
libloading = "0.8"
serde = { version = "1", features = ["derive"] }
serde_json = "1"
tokio = { version = "1", features = ["macros", "rt-multi-thread", "sync"] }
tokio-stream = "0.1"
tokio-util = "0.7"
