[package]
name = "komorebi"
version = "0.1.0"
edition = "2021"
publish = false

[dependencies]
crossbeam-channel = "*"
ctrlc = "*"
serde = { version = "*", features = ["derive"] }
serde_json = "*"
tracing = "*"
