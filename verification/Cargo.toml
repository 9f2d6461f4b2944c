[package]
name = "orbital"
version = "0.1.0"
edition = "2021"
publish = false

[dependencies]
hifitime = "4"
bytemuck = { version = "1", features = ["derive"] }
anise = { version = "0.6", default-features = false }
eframe = { version = "0.29", default-features = false, features = ["wgpu", "x11"] }
egui = { version = "0.29", default-features = false }
wgpu = "22.1"
glam = "0.29"
