[package]
name = "relay"
version = "0.1.0"
edition = "2021"
publish = false

[dependencies]
serde_json = "1"
tokio = { version = "1", features = ["rt-multi-thread", "macros", "sync"] }
warp = "0.3"
futures-util = "0.3"
tokio-stream = "0.1"
