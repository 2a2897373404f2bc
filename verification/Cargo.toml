[package]
name = "tokio_otp"
version = "0.1.0"
edition = "2021"
publish = false

[dependencies]
bytes = "1"
slab = "0.4"
thiserror = "2"
tokio = { version = "1", features = ["macros", "rt", "rt-multi-thread", "sync", "time"] }
tokio-util = { version = "0.7", features = ["rt"] }
tracing = "0.1"
