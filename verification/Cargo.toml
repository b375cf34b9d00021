[package]
name = "buzzer"
version = "0.1.0"
edition = "2021"
publish = false

[dependencies]
tonic = { version = "*", features = ["gzip"] }
prost = "*"
tokio = { version = "*", features = ["rt-multi-thread", "macros", "time", "sync"] }
tokio-stream = { version = "*", features = ["time"] }
futures = "*"
