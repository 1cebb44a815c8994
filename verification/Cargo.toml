[package]
name = "json_test"
version = "0.1.0"
edition = "2021"
publish = false

[dependencies]
jsonpath-rust = "=1.0.11"
serde_json = { version = "=1.0.151", features = ["preserve_order"] }
regex = "=1.13.1"
thiserror = "=2.0.21"
