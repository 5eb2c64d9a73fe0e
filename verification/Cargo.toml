[package]
name = "imgprssr"
version = "0.1.0"
edition = "2021"
publish = false

[dependencies]
image = "0.24"
hyper = { version = "0.14", features = ["full"] }
hyper-tls = "0.5"
tokio = { version = "1", features = ["full"] }
config = "0.13"
signal-hook = "0.3"
signal-hook-tokio = { version = "0.3", features = ["futures-v0_3"] }
futures = "0.3"
