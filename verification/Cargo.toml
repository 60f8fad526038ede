[package]
name = "rust_screenshot"
version = "0.1.0"
edition = "2021"
publish = false

[dependencies]
chrono = { version = "=0.4.45", default-features = false, features = ["clock"] }
image = { version = "=0.24.9", default-features = false, features = ["png", "jpeg", "gif"] }
arboard = { version = "=3.6.1", default-features = false, features = ["image-data"] }
minifb = "=0.25.0"
env_logger = { version = "=0.10.2", default-features = false }
