[package]
name = "fork-monitor"
version = "0.1.0"
edition = "2021"
publish = false

[dependencies]
anyhow = "1"
ethers = { version = "2", default-features = false }
hyper = { version = "0.14", features = ["server", "http1", "tcp"] }
prometheus = { version = "0.13", default-features = false }
tokio = { version = "1", features = ["macros", "rt-multi-thread", "time"] }
tracing = "0.1"
tracing-subscriber = "0.3"
