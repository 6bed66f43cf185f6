[package]
name = "vidwatch"
version = "0.1.0"
edition = "2021"
publish = false

[dependencies]
crc32fast = "1"
indexmap = "2"
reqwest = { version = "0.12", default-features = false }
tokio = { version = "1", features = ["rt-multi-thread", "macros", "time", "fs"] }
