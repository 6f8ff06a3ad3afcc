[package]
name = "imflow"
version = "0.1.0"
edition = "2021"
publish = false

[dependencies]
bytemuck = { version = "1", features = ["derive"] }
clap = { version = "=4.6.7", features = ["derive"] }
egui = "0.31"
egui-wgpu = "0.31"
egui-winit = "0.31"
image = { version = "=0.25.10", default-features = false, features = ["jpeg", "png"] }
itertools = "=0.14.0"
jpegxl-rs = "*"
libheif-rs = "*"
pollster = "0.4"
rexiv2 = "=0.10.0"
threadpool = "=1.8.1"
wgpu = "24"
winit = "0.30"
zune-image = "=0.4.15"
