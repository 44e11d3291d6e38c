[package]
name = "stream_cache"
version = "0.1.0"
edition = "2021"
publish = false

[dependencies]
async-trait = "*"
futures = "*"
tokio = { version = "*", features = ["rt", "rt-multi-thread", "sync", "macros", "time"] }
