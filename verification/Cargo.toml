[package]
name = "rclrs"
version = "0.1.0"
edition = "2021"
publish = false

[dependencies]
serde = "=1.0.229"
libloading = "=0.8.9"
