[package]
name = "voxel_mesher"
version = "0.1.0"
edition = "2021"
publish = false

[dependencies]
bevy = { version = "0.15", default-features = false, features = ["bevy_asset", "bevy_color", "bevy_core_pipeline", "bevy_pbr", "bevy_render", "bevy_window", "bevy_winit", "tonemapping_luts", "x11"] }
bevy_flycam = "0.15"
bracket-noise = "0.8"
rand = "0.9"
