[package]
name = "glb_ragdoll"
version = "0.1.0"
edition = "2021"
publish = false

[dependencies]
bevy = { version = "=0.19.1", default-features = false, features = ["std", "bevy_log", "keyboard", "mouse", "bevy_window", "bevy_animation", "bevy_asset", "bevy_world_serialization"] }
avian3d = { version = "=0.7.0", default-features = false, features = ["3d", "f32", "parry-f32", "bevy_scene"] }
