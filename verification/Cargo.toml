[package]
name = "ddk"
version = "0.1.0"
edition = "2021"
publish = false

[dependencies]
aliyun-openapi-core-rust-sdk = "0.3"
clap = "3.2"
log = "0.4"
reqwest = { version = "0.11", features = ["blocking"] }
serde = "1"
serde_derive = "1"
serde_json = "1"
toml = "0.5"
