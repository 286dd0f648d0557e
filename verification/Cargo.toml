[package]
name = "prism_test_utils"
version = "0.1.0"
edition = "2021"
publish = false

[dependencies]
serde_json = "*"
uuid = { version = "*", features = ["v4"] }
chrono = "*"
prism-mcp-rs = "*"
