[package]
name = "g13_nexus"
version = "1.0.0"
edition = "2021"
publish = false

[dependencies]
anyhow = "1"
dirs = "5"
libc = "0.2"
serde = { version = "1", features = ["derive"] }
serde_json = "1"
image = { version = "0.25", default-features = false, features = ["png", "jpeg", "bmp"] }
