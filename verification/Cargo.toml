[package]
name = "whalenest"
version = "0.1.0"
edition = "2021"
publish = false

[dependencies]
serde = { version = "1", features = ["derive"] }
serde_json = "1"
toml = "0.8"
open = "5"
parking_lot = "0.12"
flume = "0.11"
libc = "0.2"
image = { version = "0.25", default-features = false, features = ["png"] }
