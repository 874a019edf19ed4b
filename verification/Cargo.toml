[package]
name = "iexplorer"
version = "0.1.0"
edition = "2021"
publish = false

[dependencies]
rand = "0.8"
serde = { version = "1", features = ["derive"] }
serde_json = "1"
bevy = { version = "0.8", default-features = false, features = ["bevy_asset", "bevy_winit", "render", "png", "x11"] }
iyes_loopless = "0.7"
bevy_common_assets = { version = "0.3", features = ["json"] }
bevy-inspector-egui = "0.12"
