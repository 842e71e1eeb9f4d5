[package]
name = "unifs"
version = "0.1.0"
edition = "2021"
publish = false

[dependencies]
parking_lot = "=0.12.5"
zip = { version = "2", default-features = false, features = ["deflate"] }
