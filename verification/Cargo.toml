[package]
name = "hostguard"
version = "0.2.0"
edition = "2021"
publish = false

[dependencies]
libc = "=0.2.191"
serde = { version = "=1.0.229", features = ["derive"] }
serde_json = { version = "=1.0.154", features = ["float_roundtrip"] }
