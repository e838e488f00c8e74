[package]
name = "star_arena"
version = "0.1.0"
edition = "2021"
publish = false

[dependencies]
rand = "0.8"
bevy = { version = "0.9", default-features = false, features = ["bevy_asset", "bevy_winit", "bevy_render", "bevy_core_pipeline", "bevy_sprite", "bevy_text", "bevy_ui", "png", "x11"] }
bevy_prototype_lyon = "0.7"
bevy-inspector-egui = "0.14"
