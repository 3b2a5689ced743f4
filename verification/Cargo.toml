[package]
name = "muse_core"
version = "0.1.0"
edition = "2021"
publish = false

[dependencies]
btleplug = "*"
futures = "*"
tokio = { version = "*", features = ["rt-multi-thread", "sync", "time"] }
uuid = "*"
lsl = "*"
