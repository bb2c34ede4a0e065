[package]
name = "core_widgets"
version = "0.1.0"
edition = "2021"
publish = false

[dependencies]
bevy_app = "*"
