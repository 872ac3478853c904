[package]
name = "xsar_display"
version = "0.2.0"
edition = "2021"
publish = false

[dependencies]
anyhow = "1"
chrono = "0.4"
csv = "1"
eframe = { version = "0.29", default-features = false, features = ["default_fonts", "glow", "x11"] }
egui_plot = "0.29"
rfd = "0.15"
