[package]
name = "todo_app"
version = "0.1.0"
edition = "2021"
publish = false

[dependencies]
chrono = "0.4"
eframe = { version = "*", default-features = false, features = ["default_fonts", "glow", "persistence", "x11"] }
egui_material_icons = "*"
serde = { version = "1", features = ["derive"] }
whoami = "1"
