[package]
name = "scene_viewer"
version = "0.1.0"
edition = "2021"
publish = false

[dependencies]
bevy = { version = "=0.7.0", default-features = false, features = ["bevy_winit", "render", "png", "x11", "filesystem_watcher"] }
# bevy's derive crates of this release use items behind syn's `full` feature
# without enabling it; this procedural-macro crate enables it for them.
darling_macro = "=0.13.4"

[dev-dependencies]
anyhow = "=1.0.104"
