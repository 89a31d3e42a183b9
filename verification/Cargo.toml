[package]
name = "delayed_logger"
version = "0.1.0"
edition = "2021"
publish = false

[dependencies]
owo-colors = { version = "4", features = ["supports-colors"] }
thread_local = "1.1"
tracing = "0.1"
tracing-core = "0.1"
