[package]
name = "fcross"
version = "0.1.0"
edition = "2021"
publish = false

[dependencies]
cosmwasm-std = { version = "1.5", features = ["stargate"] }
cosmwasm-schema = "1.5"
cw-storage-plus = "1.2"
serde_json = "1"
thiserror = "1"
