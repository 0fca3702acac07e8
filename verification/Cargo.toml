[package]
name = "system_monitor"
version = "0.1.0"
edition = "2021"
publish = false

[dependencies]
eframe = { version = "=0.29.1", default-features = false, features = ["default_fonts", "glow"] }
egui_plot = "=0.29.0"
sysinfo = { version = "=0.32.1", default-features = false, features = ["system", "disk"] }
battery = "=0.7.8"
nvml-wrapper = "=0.10.0"
