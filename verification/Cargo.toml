[package]
name = "idevice"
version = "0.1.0"
edition = "2021"
publish = false

[dependencies]
indexmap = { version = "=2.14.2", features = ["serde"] }
plist = "=1.10.3"
serde = { version = "=1.0.229", features = ["derive"] }
uuid = { version = "=1.29.0", features = ["serde"] }
