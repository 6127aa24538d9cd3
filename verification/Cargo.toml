[package]
name = "voxel_world"
version = "0.1.0"
edition = "2021"
publish = false

[dependencies]
bevy = { version = "0.9", default-features = false, features = ["bevy_asset", "bevy_core_pipeline", "bevy_pbr", "bevy_render", "bevy_scene", "bevy_text", "bevy_ui", "bevy_winit", "x11"] }
bevy_atmosphere = "0.5"
bevy-inspector-egui = "0.17"
block-mesh = "0.2"
ndshape = "0.3"
noise = "0.8"
once_cell = "1"
parking_lot = "0.12"
rand = "0.8"
