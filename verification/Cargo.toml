[package]
name = "cosmi-cal"
version = "0.1.0"
edition = "2021"
publish = false

[dependencies]
chrono = "0.4"
serde = { version = "1", features = ["derive"] }
serde_json = "1"
arboard = { version = "3", default-features = false }
tokio = { version = "1", features = ["net", "io-util", "rt-multi-thread", "time", "macros"] }
futures-util = "0.3"
open = "5"
