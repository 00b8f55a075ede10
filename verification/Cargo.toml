[package]
name = "game_client"
version = "0.1.0"
edition = "2021"
publish = false

[dependencies]
anyhow = "1"
bytemuck = "1"
flexstr = "0.9"
glam = "0.22"
mimalloc = { version = "0.1", default-features = false }
quinn = "0.9"
tokio = { version = "1", features = ["sync", "rt-multi-thread", "macros"] }
winit = "0.27"
