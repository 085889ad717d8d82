[package]
name = "helldivers2_cn_helper"
version = "0.1.0"
edition = "2021"
publish = false

[dependencies]
serde = { version = "=1.0.229", features = ["derive"] }
serde_json = "=1.0.154"
reqwest = { version = "=0.12.28", default-features = false, features = ["json"] }
semver = "=1.0.28"
encoding_rs = "=0.8.44"
base64 = "=0.22.1"
image = { version = "=0.25.10", default-features = false, features = ["png"] }
tokio = { version = "=1.54.1", default-features = false, features = ["rt-multi-thread"] }
