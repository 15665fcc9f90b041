[package]
name = "autogib"
version = "0.1.0"
edition = "2021"
publish = false

[dependencies]
bevy = { version = "=0.19.1", default-features = false, features = ["std", "bevy_mesh", "bevy_log", "bevy_asset"] }
isomesh = "=0.0.14"
