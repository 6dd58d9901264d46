[package]
name = "zklogin_auth"
version = "0.1.0"
edition = "2021"
publish = false

[dependencies]
bnum = "=0.14.4"
bcs = "=0.2.1"
serde = { version = "=1.0.229", features = ["derive"] }
serde_with = { version = "=3.24.0", features = ["base64"] }
