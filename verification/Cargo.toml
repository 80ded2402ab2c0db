[package]
name = "sompp_tools"
version = "0.1.0"
edition = "2021"
publish = false

[dependencies]
base64 = "0.21"
sha2 = "0.10"
fastrand = "2"
chrono = { version = "0.4", features = ["serde"] }
serde = { version = "1", features = ["derive"] }
ureq = { version = "2", features = ["json"] }
anyhow = "1"
log = "0.4"
env_logger = "0.10"
android_logger = "0.13"
wry = "0.24"
