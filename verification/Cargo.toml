[package]
name = "xbar"
version = "0.1.0"
edition = "2021"
publish = false

[dependencies]
async-channel = "2"
futures-lite = "2"
libc = "0.2"
libpulse-binding = "2"
serde = { version = "1", features = ["derive"] }
serde_json = "1"
toml = "*"
zbus = "5"
