[package]
name = "combine_sim"
version = "0.1.0"
edition = "2021"
publish = false

[dependencies]
bevy = { version = "0.8", default-features = false, features = ["render", "bevy_winit", "x11"] }
bevy_rapier3d = { version = "0.16", default-features = false, features = ["dim3"] }
