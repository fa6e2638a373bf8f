[package]
name = "file_source"
version = "0.1.0"
edition = "2021"
publish = false

[dependencies]
bytes = "1"
chrono = { version = "0.4", default-features = false, features = ["std", "clock"] }
flate2 = "1"
tracing = "0.1"
