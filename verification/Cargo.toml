[package]
name = "squareblocks"
version = "0.1.0"
edition = "2021"
publish = false

[dependencies]
bevy = { version = "=0.5.0", default-features = false, features = ["render", "bevy_wgpu", "bevy_winit", "x11"] }
bevy_flycam = "=0.5.1"
noise = "=0.7.0"
rand = "=0.8.8"
# bevy's derive crates parse whole items but do not ask syn for that
# feature; this turns it on for the crates that run at build time.
num_enum = { version = "=0.4.3", features = ["complex-expressions"] }
