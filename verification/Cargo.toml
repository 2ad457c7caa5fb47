[package]
name = "access_gate"
version = "0.1.0"
edition = "2021"
publish = false

[dependencies]
dashmap = "*"
chrono = "*"
uuid = { version = "*", features = ["v4"] }
