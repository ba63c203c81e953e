[package]
name = "interning"
version = "0.1.0"
edition = "2021"
publish = false

[dependencies]
dashmap = "*"
lazy_static = "*"
serde = "*"
stable-hash = "*"
