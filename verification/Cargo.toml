[package]
name = "releasy_client"
version = "0.1.0"
edition = "2021"
publish = false

[dependencies]
ureq = { version = "3", default-features = false }

[dev-dependencies]
serde_json = "1"
