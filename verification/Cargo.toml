[package]
name = "file_tracker"
version = "0.1.0"
edition = "2021"
publish = false

[dependencies]
uuid = { version = "*", features = ["v1"] }
mac_address = "*"
serde = { version = "*", features = ["derive"] }
serde_json = "*"
