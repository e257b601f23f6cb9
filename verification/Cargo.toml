[package]
name = "fast_export"
version = "0.1.0"
edition = "2021"
publish = false

[dependencies]
memchr = "2"
