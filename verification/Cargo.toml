[package]
name = "aubypipe"
version = "0.1.0"
edition = "2021"
publish = false

[dependencies]
uuid = { version = "*", features = ["v4"] }
tokio = { version = "*", features = ["net", "rt", "rt-multi-thread", "io-util", "time"] }
pin-project = "*"
