[package]
name = "rust_tasks"
version = "0.1.0"
edition = "2021"
publish = false

[dependencies]
dirs = "5"
eframe = { version = "0.22", default-features = false, features = ["default_fonts", "glow"] }
serde = { version = "1", features = ["derive"] }
serde_json = "1"
