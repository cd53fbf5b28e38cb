[package]
name = "ldtk_render"
version = "0.1.0"
edition = "2021"
publish = false

[dependencies]
anyhow = "=1.0.104"
bevy = { version = "=0.5.0", default-features = false, features = ["render"] }
serde_json = "=1.0.154"
