[package]
name = "moonlight_stream"
version = "0.1.0"
edition = "2021"
publish = false

[dependencies]
fec-rs = "*"
pin-project-lite = "0.2"
rusty_enet = "*"
sans-io-time = "*"
smallvec = "1"
thiserror = "2"
tokio = { version = "1", features = ["io-util", "macros", "net", "rt", "time"] }
tracing = "0.1"
