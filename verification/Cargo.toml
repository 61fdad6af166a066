[package]
name = "bevy_fake_interior"
version = "0.1.0"
edition = "2021"
publish = false

[dependencies]
bevy = { version = "=0.15.3", default-features = false, features = ["bevy_asset", "bevy_core_pipeline", "bevy_pbr", "bevy_render", "bevy_window", "bevy_winit", "png", "tonemapping_luts", "x11"] }
bevy_panorbit_camera = { version = "=0.22.2", default-features = false }
bevy_spectator = { version = "=0.7.0", default-features = false }
