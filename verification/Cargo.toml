[package]
name = "ducky_boids"
version = "0.1.0"
edition = "2021"
publish = false

[dependencies]
rand = "=0.8.8"
bevy = { version = "=0.14.2", default-features = false, features = ["bevy_state", "bevy_winit", "x11"] }
bevy_jornet = { version = "0.8", default-features = false }
image = { version = "0.25", default-features = false, features = ["png"] }
winit = { version = "0.30", default-features = false, features = ["x11", "rwh_06"] }
