[package]
name = "circumference"
version = "0.1.0"
edition = "2021"
publish = false

[dependencies]
egui = "0.26"

[dev-dependencies]
bevy_math = "0.13"
