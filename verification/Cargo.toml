[package]
name = "oxibrowser_core"
version = "0.1.0"
edition = "2021"
publish = false

[dependencies]
serde_json = "1"
base64 = "0.22"
tokio = { version = "1", features = ["rt"] }
