[package]
name = "named_lock"
version = "0.1.0"
edition = "2021"
publish = false

[dependencies]
thiserror = "1"
web-sys = { version = "0.3", features = ["Window", "Storage"] }
