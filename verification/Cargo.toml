[package]
name = "aio_bridge"
version = "0.1.0"
edition = "2021"
publish = false

[dependencies]
aio-bindings = "*"
futures = "*"
tokio = { version = "*", features = ["rt", "macros"] }
