[package]
name = "isobmff"
version = "0.1.0"
edition = "2021"
publish = false

[dependencies]
base64 = "0.22"
uuid = "1"
serde = { version = "1", features = ["derive"] }
serde_json = "1"
