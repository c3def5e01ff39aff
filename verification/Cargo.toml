[package]
name = "capture_scheduler"
version = "0.1.0"
edition = "2021"
publish = false

[dependencies]
chrono = "*"
dirs = "*"
image = { version = "*", default-features = false, features = ["jpeg"] }
xcap = "*"
