[package]
name = "conv_nn"
version = "0.1.0"
edition = "2021"
publish = false

[dependencies]
rand = "0.8"
serde = { version = "1", features = ["derive"] }
serde_json = "1"
bincode = "1"
image = "*"
rust-mnist = "*"
ndarray = { version = "*", features = ["serde"] }
indicatif = "*"
