[package]
name = "hopper_handshake"
version = "0.1.0"
edition = "2021"
publish = false

[dependencies]
tokio = { version = "1", features = ["net", "time", "io-util", "rt-multi-thread", "macros"] }
