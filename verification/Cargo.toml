[package]
name = "rts_sim"
version = "0.1.0"
edition = "2021"
publish = false

[dependencies]
rand = "=0.8.8"
bevy = { version = "=0.14.2", default-features = false, features = ["bevy_state"] }
bevy_rapier2d = { version = "=0.27.0", default-features = false, features = ["dim2", "headless"] }
