[package]
name = "lvx"
version = "0.1.0"
edition = "2021"
publish = false

[dependencies]
catppuccin-egui = { version = "=5.7.0", default-features = false, features = ["egui33"] }
chrono = "=0.4.45"
eframe = { version = "=0.33.3", default-features = false, features = ["glow", "default_fonts", "x11"] }
egui_extras = "=0.33.3"
env_logger = { version = "=0.11.11", default-features = false }
rfd = { version = "=0.17.2", default-features = false, features = ["xdg-portal"] }
serde_json = "=1.0.154"
