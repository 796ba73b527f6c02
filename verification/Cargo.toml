[package]
name = "howudoin"
version = "0.1.0"
edition = "2021"
publish = false

[dependencies]
flume = "0.10"
indicatif = "0.17"
parking_lot = "0.12"
serde = { version = "1", features = ["derive"] }
serde_json = "1"
