[package]
name = "game"
version = "0.1.0"
edition = "2021"
publish = false

[dependencies]
anyhow = "1"
colored = "2"
serde = { version = "1", features = ["derive"] }
warp = "0.3"
