[package]
name = "topdown_combat"
version = "0.1.0"
edition = "2021"
publish = false

[dependencies]
bevy = { version = "=0.12.1", default-features = false }
bevy_xpbd_2d = { version = "0.3", default-features = false, features = ["2d", "f32"] }
