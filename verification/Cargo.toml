[package]
name = "insulator"
version = "0.1.0"
edition = "2021"
publish = false

[dependencies]
url = "2"
dirs = "*"
libc = "0.2"
anyhow = "1"
serde = { version = "1", features = ["derive"] }
serde_json = "1"
