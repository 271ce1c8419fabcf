[package]
name = "dice_battle"
version = "0.1.0"
edition = "2021"
publish = false

[dependencies]
rand = "=0.8.8"
rand_distr = "=0.4.3"
futures = "=0.3.34"
bevy = { version = "=0.16.1", default-features = false, features = ["std", "async_executor", "multi_threaded", "bevy_asset", "bevy_color", "bevy_core_pipeline", "bevy_log", "bevy_pbr", "bevy_picking", "bevy_render", "bevy_sprite", "bevy_state", "bevy_text", "bevy_ui", "bevy_window", "default_font"] }
bevy_defer = { version = "=0.14.0", default-features = false }
avian3d = { version = "0.3", default-features = false, features = ["3d", "f32", "parry-f32"] }
