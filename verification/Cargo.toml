[package]
name = "user_store"
version = "0.1.0"
edition = "2021"
publish = false

[dependencies]
dashmap = "*"
csv = "*"
rayon = "*"
uuid = { version = "*", features = ["v4"] }
chrono = "*"
tokio = { version = "*", features = ["rt-multi-thread", "macros", "fs", "io-util", "time", "sync"] }
futures = "*"
