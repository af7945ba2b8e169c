[package]
name = "corim_core"
version = "0.1.0"
edition = "2021"
publish = false

[dependencies]
ciborium = "*"
serde = { version = "1", features = ["derive"] }
derive_more = { version = "*", features = ["from", "constructor"] }
