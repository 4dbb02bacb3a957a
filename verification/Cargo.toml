[package]
name = "ntx_builder"
version = "0.1.0"
edition = "2021"
rust-version = "1.95"
publish = false

[dependencies]
anyhow = "1"
futures = { version = "0.3", default-features = false, features = ["std"] }
miden-protocol = { version = "0.15.3", default-features = false }
tokio = { version = "1", features = ["macros", "net", "rt", "sync", "time"] }
tokio-stream = { version = "0.1", default-features = false }
tokio-util = { version = "0.7", default-features = false }
