[package]
name = "aiva"
version = "0.1.0"
edition = "2021"
publish = false

[dependencies]
base64 = "0.22"
regex = "1"
serde = { version = "1", features = ["derive"] }
serde_json = "1"
hound = "3.5"
cpal = { version = "0.15", default-features = false }
rodio = { version = "0.19", default-features = false, features = ["wav"] }
