[package]
name = "garden_sim"
version = "0.1.0"
edition = "2021"
publish = false

[dependencies]
rand = "0.8"
bevy = { version = "0.5", default-features = false, features = ["render"] }
bevy_egui = "0.4"
bevy_asset_loader = "0.2"
