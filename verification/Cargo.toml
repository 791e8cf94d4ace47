[package]
name = "rust_server_listener"
version = "0.1.0"
edition = "2021"
publish = false

[dependencies]
base64 = "0.13"
sha1_smol = "1"
tokio = { version = "1", features = ["net", "io-util", "rt-multi-thread", "macros"] }
