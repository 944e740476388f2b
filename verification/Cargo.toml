[package]
name = "downloader"
version = "0.1.0"
edition = "2021"
publish = false

[dependencies]
chrono = "0.4"
xxhash-rust = { version = "0.8", features = ["xxh64"] }
tokio = { version = "1", features = ["rt", "rt-multi-thread", "time", "fs", "io-util", "sync", "macros"] }
tokio-util = { version = "0.7", features = ["rt"] }
reqwest = { version = "0.12", default-features = false, features = ["stream"] }
futures = "0.3"
parking_lot = "0.12"
