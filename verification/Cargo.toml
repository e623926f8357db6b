[package]
name = "tether"
version = "0.1.0"
edition = "2021"
publish = false

[dependencies]
bevy = { version = "0.13", default-features = false }
bevy_xpbd_3d = { version = "0.4", default-features = false, features = ["3d", "f32", "parry-f32"] }
