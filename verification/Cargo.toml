[package]
name = "nl_kdapp"
version = "0.1.0"
edition = "2021"
publish = false

[dependencies]
faster-hex = "*"
uuid = { version = "*", features = ["v4"] }
