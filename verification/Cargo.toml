[package]
name = "nv_models"
version = "0.1.0"
edition = "2021"
publish = false

[dependencies]
anyhow = "1"
bytemuck = { version = "1", features = ["derive"] }
candle-core = { version = "*", default-features = false }
candle-nn = { version = "*", default-features = false }
half = "2"
pollster = "*"
serde = { version = "1", features = ["derive"] }
serde_json = "1"
wgpu = "*"
