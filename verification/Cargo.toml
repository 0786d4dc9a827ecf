[package]
name = "text2audio"
version = "0.1.0"
edition = "2021"
publish = false

[dependencies]
hound = "=3.5.1"
zai-rs = "*"
tokio = { version = "*", features = ["rt", "time"] }
futures = "*"
serde = "*"
serde_json = "*"
