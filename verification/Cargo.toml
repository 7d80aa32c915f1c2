[package]
name = "pyapp"
version = "0.1.0"
edition = "2021"
publish = false

[dependencies]
anyhow = "1"
once_cell = "1"
reqwest = { version = "0.12", default-features = false, features = ["blocking", "rustls-tls"] }
winit = { version = "0.30", default-features = false, features = ["x11", "rwh_06"] }
softbuffer = { version = "0.4", default-features = false, features = ["x11", "x11-dlopen"] }
eframe = { version = "0.31", default-features = false, features = ["default_fonts", "glow", "wgpu", "x11"] }
