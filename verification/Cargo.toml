[package]
name = "gravitium"
version = "0.1.0"
edition = "2021"
publish = false

[dependencies]
bevy = { version = "=0.18.1", default-features = false, features = ["bevy_render", "bevy_window", "bevy_log"] }
bevy_panorbit_camera = { version = "=0.34.0", default-features = false }
