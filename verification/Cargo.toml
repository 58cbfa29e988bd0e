[package]
name = "chess_app"
version = "0.1.0"
edition = "2021"
publish = false

[dependencies]
rand = "=0.10.3"
eframe = { version = "=0.31.1", default-features = false, features = ["default_fonts", "glow", "x11"] }
egui_extras = { version = "=0.31.1", default-features = false, features = ["image"] }
image = { version = "=0.25.10", default-features = false, features = ["png"] }
