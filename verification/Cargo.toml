[package]
name = "control201"
version = "0.1.0"
edition = "2021"
publish = false

[dependencies]
anyhow = "1"
byteordered = "0.6"
serde = { version = "1", features = ["derive"] }
serde_derive = "1"
