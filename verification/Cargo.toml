[package]
name = "option_settlement"
version = "0.1.0"
edition = "2021"
publish = false

[dependencies]
anyhow = "1"
log = "0.4"
rust_decimal = { version = "1", default-features = false, features = ["std"] }
uuid = { version = "1", features = ["v4"] }
