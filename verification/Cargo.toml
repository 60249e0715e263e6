[package]
name = "p-hash-rust"
version = "0.1.0"
edition = "2021"
publish = false

[dependencies]
bitvec = "1"
hex = "0.4"
image = { version = "0.25", default-features = false, features = ["png", "jpeg"] }
clap = { version = "4", features = ["derive"] }
serde = { version = "1", features = ["derive"] }
toml = "*"
