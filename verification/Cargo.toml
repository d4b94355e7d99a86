[package]
name = "shipcraft"
version = "0.1.0"
edition = "2021"
publish = false

[dependencies]
bevy = { version = "0.17", default-features = false }
avian2d = { version = "0.4", default-features = false, features = ["2d", "f32", "parry-f32", "default-collider"] }
ron = "*"
serde = { version = "1", features = ["derive"] }
