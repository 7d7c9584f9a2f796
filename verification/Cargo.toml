[package]
name = "anxwritter"
version = "1.24.0"
edition = "2021"
publish = false

[dependencies]
base64 = "=0.22.1"
chrono = { version = "=0.4.45", default-features = false, features = ["alloc"] }
flate2 = "=1.1.10"
image = { version = "=0.25.10", default-features = false, features = ["png", "jpeg", "bmp"] }
indexmap = { version = "=2.14.2", features = ["serde"] }
regex = "=1.13.1"
serde = { version = "=1.0.229", features = ["derive"] }
serde_json = "=1.0.154"
serde_with = "=3.24.0"
serde_yaml_ng = "=0.10.0"
thiserror = "=2.0.21"
uuid = { version = "=1.29.0", features = ["v5"] }
