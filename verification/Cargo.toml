[package]
name = "query_reaper"
version = "0.1.0"
edition = "2021"
publish = false

[dependencies]
tokio = { version = "*", features = ["sync", "rt-multi-thread", "macros", "time"] }
tokio-util = "*"
uuid = { version = "*", features = ["v4"] }
