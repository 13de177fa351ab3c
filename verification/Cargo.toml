[package]
name = "jsonrpsee"
version = "0.1.0"
edition = "2021"
publish = false

[dependencies]
serde = { version = "1", features = ["derive"] }
serde_json = "1"
url = "2"
arrayvec = "0.7"
futures-channel = "0.3"
futures-util = "0.3"
