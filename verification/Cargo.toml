[package]
name = "vwisper"
version = "0.1.0"
edition = "2021"
publish = false

[dependencies]
chrono = "*"
crossbeam-channel = "*"
dirs = "*"
reqwest = { version = "*", default-features = false, features = ["blocking", "multipart"] }
serde = { version = "*", features = ["derive"] }
serde_json = "*"
uuid = { version = "*", features = ["v4"] }
