[package]
name = "bash_env"
version = "0.1.0"
edition = "2021"
publish = false

[dependencies]
serde_json = { version = "1", features = ["preserve_order"] }
shellexpand = "3"
subprocess = "0.2"
tempfile = "3"
