[package]
name = "uplink"
version = "0.1.0"
edition = "2021"
publish = false

[dependencies]
humansize = "2"
mime = "0.3"
uuid = { version = "1", features = ["v4"] }
serde = { version = "1", features = ["derive"] }
serde_json = "1"
dirs = "5"
log = "0.4"
