[package]
name = "presence_scan"
version = "0.1.0"
edition = "2021"
publish = false

[dependencies]
serde_json = "1"
btleplug = "0.11"
tokio = { version = "1", features = ["rt-multi-thread", "macros", "time"] }
