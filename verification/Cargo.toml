[package]
name = "voxel_terrain"
version = "0.1.0"
edition = "2021"
publish = false

[dependencies]
block-mesh = "=0.2.0"
fast-surface-nets = "=0.2.1"
noise = "=0.7.0"
futures-lite = "=1.13.0"
bevy = { version = "=0.7.0", default-features = false, features = ["render"] }
bevy_egui = "0.14"
