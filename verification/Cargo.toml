[package]
name = "paperclip"
version = "0.1.0"
edition = "2021"
publish = false

[dependencies]
crc = "1"
serde = { version = "1", features = ["derive"] }
