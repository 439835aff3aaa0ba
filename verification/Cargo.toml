[package]
name = "bevy_steam_audio"
version = "0.1.0"
edition = "2021"
publish = false

[dependencies]
audionimbus = "=0.11.0"
bevy_app = "=0.17.3"
bevy_asset = "=0.17.3"
bevy_camera = "=0.17.3"
bevy_color = "=0.17.3"
bevy_derive = "=0.17.3"
bevy_ecs = "=0.17.3"
bevy_gizmos = { version = "=0.17.3", default-features = false }
bevy_log = "=0.17.3"
bevy_math = "=0.17.3"
bevy_mesh = "=0.17.3"
bevy_platform = "=0.17.3"
bevy_reflect = "=0.17.3"
bevy_seedling = "=0.6.1"
bevy_tasks = "=0.17.3"
bevy_time = "=0.17.3"
bevy_transform = "=0.17.3"
bevy_utils = "=0.17.3"
crossbeam-channel = "=0.5.17"
firewheel = "=0.9.4"
itertools = "=0.14.0"
thiserror = "=2.0.21"
wildmatch = "=2.7.0"
