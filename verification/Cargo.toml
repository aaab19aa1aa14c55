[package]
name = "zver"
version = "0.1.0"
edition = "2021"
publish = false

[dependencies]
cssparser = "*"
scraper = "*"
selectors = "*"
precomputed-hash = "*"
fontdue = "*"
futures-util = "*"
tokio = { version = "*", features = ["rt-multi-thread", "fs", "sync", "time", "macros"] }
reqwest = { version = "*", default-features = false }
