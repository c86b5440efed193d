[package]
name = "iot_integrity"
version = "0.1.0"
edition = "2021"
publish = false

[dependencies]
rand = "0.8"

[dev-dependencies]
serde_json = "1"
