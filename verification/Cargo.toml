[package]
name = "fbw_systems"
version = "0.1.0"
edition = "2021"
publish = false

[dependencies]
bytemuck = "1"
flate2 = "1"
csv = "1"
log = "0.4"
env_logger = { version = "*", default-features = false }
parking_lot = "*"
uom = { version = "*", default-features = false, features = ["f64", "si", "std"] }
egui = { version = "*", default-features = false, features = ["default_fonts"] }
egui_plot = { version = "*", default-features = false }
eframe = { version = "*", default-features = false, features = ["glow", "default_fonts", "x11"] }
