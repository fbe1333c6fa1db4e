[package]
name = "macmon"
version = "0.1.0"
edition = "2021"
publish = false

[dependencies]
core-foundation = "0.9"
libc = "0.2"
serde_json = "1"
