[package]
name = "contemporary"
version = "0.1.0"
edition = "2021"
publish = false

[dependencies]
unicode-segmentation = "=1.13.3"
url = "=2.5.8"
serde = { version = "=1.0.229", features = ["derive"] }
freedesktop-icons = "*"
