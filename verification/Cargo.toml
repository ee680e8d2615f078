[package]
name = "character_controller"
version = "0.1.0"
edition = "2021"
publish = false

[dependencies]
bevy = { version = "=0.8.1", default-features = false, features = ["bevy_asset", "bevy_gltf", "bevy_scene", "bevy_winit", "png", "render", "x11"] }
cgmath = "=0.17.0"
futures = "=0.3.21"
message-io = "=0.14.8"
rand = "=0.8.8"
serde = { version = "1", features = ["derive"] }
serde_json = "1"
serde_yaml = "=0.8.26"
winit = "=0.26.1"
