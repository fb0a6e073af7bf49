[package]
name = "synth_one"
version = "0.1.0"
edition = "2021"
publish = false

[dependencies]
realfft = "*"
serde = { version = "*", features = ["derive"] }
serde_json = "*"
