[package]
name = "gtirb"
version = "0.1.0"
edition = "2021"
publish = false

[dependencies]
anyhow = "1"
generational-arena = "0.2"
prost = "0.13"
uuid = { version = "1", features = ["v4"] }
