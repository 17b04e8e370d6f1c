[package]
name = "bevy_rpg"
version = "0.1.0"
edition = "2021"
publish = false

[dependencies]
rand = "0.8"
serde = { version = "1", features = ["derive"] }
serde_yaml = "0.9"
bevy = { version = "0.9", default-features = false, features = ["bevy_asset", "bevy_render", "bevy_sprite", "bevy_text", "bevy_ui", "bevy_winit", "bevy_core_pipeline", "png", "x11"] }
iyes_loopless = "0.9"
bevy-inspector-egui = "0.14"
