[package]
name = "zaps"
version = "0.1.0"
edition = "2021"
publish = false

[dependencies]
hex = "0.4"
tokio = { version = "1", features = ["full"] }
