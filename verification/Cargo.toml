[package]
name = "front_end"
version = "0.1.0"
edition = "2021"
publish = false

[dependencies]
string-builder = "*"
uuid = { version = "*", features = ["v4"] }
serde = { version = "*", features = ["derive"] }
