[package]
name = "civgame"
version = "0.1.0"
edition = "2021"
publish = false

[dependencies]
ahash = "=0.8.12"
bevy = { version = "=0.15.3", default-features = false, features = ["x11"] }
bevy_egui = { version = "=0.31.1", default-features = false }
fastrand = "=2.5.0"
ron = "=0.8.1"
serde = { version = "=1.0.229", features = ["derive"] }
