[package]
name = "tspchat"
version = "0.1.0"
edition = "2021"
publish = false

[dependencies]
tokio = { version = "1", features = ["sync", "net", "io-util", "rt-multi-thread", "macros", "time"] }
tokio-stream = "0.1"
crossterm = { version = "0.28", features = ["event-stream"] }
ratatui = "0.29"
