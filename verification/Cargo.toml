[package]
name = "bevy_winit"
version = "0.1.0"
edition = "2021"
publish = false

[dependencies]
bevy_a11y = "0.14"
bevy_app = "0.14"
bevy_derive = "0.14"
bevy_ecs = "0.14"
bevy_hierarchy = "0.14"
bevy_window = "0.14"
winit = { version = "0.30", default-features = false, features = ["x11", "rwh_06"] }
