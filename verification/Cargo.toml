[package]
name = "lightstreamer_client"
version = "0.1.0"
edition = "2021"
publish = false

[dependencies]
colored = "*"
signal-hook = "*"
tokio = { version = "*", features = ["macros", "rt-multi-thread", "sync", "time"] }
