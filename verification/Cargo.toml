[package]
name = "apclient"
version = "0.1.0"
edition = "2021"
publish = false

[dependencies]
archipelago_rs = "=3.0.1"
serde = { version = "=1.0.229", features = ["derive"] }
serde_json = "=1.0.151"
