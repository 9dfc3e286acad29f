[package]
name = "teleinfo"
version = "0.1.0"
edition = "2021"
publish = false

[dependencies]
async-stream = "*"
futures-util = "*"
rppal = "*"
serde_json = "*"
serialport = "*"
tokio = { version = "*", features = ["macros", "rt-multi-thread", "time"] }
tracing = "*"
tracing-subscriber = "*"
