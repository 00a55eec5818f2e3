[package]
name = "rusty_spire"
version = "0.1.0"
edition = "2021"
publish = false

[dependencies]
indexmap = "2"
dds = "*"
image = { version = "0.25", default-features = false, features = ["png", "webp"] }
serde = { version = "1", features = ["derive"] }
serde_json = "1"
itertools = "*"
anyhow = "1"
steamlocate = "2"
