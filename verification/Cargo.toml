[package]
name = "managed_threads"
version = "0.1.0"
edition = "2021"
publish = false

[dev-dependencies]
arbtest = "*"
exhaustigen = "*"
