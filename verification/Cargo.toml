[package]
name = "khepri"
version = "0.1.0"
edition = "2021"
publish = false

[dependencies]
serde = { version = "1", features = ["derive"] }
ron = "0.8"
tracing = "0.1"
tracing-subscriber = "0.3"
eframe = { version = "*", default-features = false, features = ["default_fonts", "glow", "x11", "persistence"] }
egui = "*"
rfd = { version = "*", default-features = false, features = ["xdg-portal", "tokio"] }
