[package]
name = "error_reply"
version = "0.1.0"
edition = "2021"
publish = false

[dependencies]
serde = { version = "1", features = ["derive"] }
thiserror = "1"
warp = "0.3"

[dev-dependencies]
serde_json = "1"
