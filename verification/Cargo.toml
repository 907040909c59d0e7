[package]
name = "poster_catalog"
version = "0.1.0"
edition = "2021"
publish = false

[dependencies]
eframe = { version = "=0.17.0", features = ["persistence"] }
egui = "=0.17.0"
ehttp = "=0.2.0"
epi = { version = "=0.17.0", features = ["persistence"] }
image = "=0.24.9"
serde = { version = "=1.0.229", features = ["derive"] }
serde_json = "=1.0.154"
time = { version = "=0.3.55", features = ["formatting"] }
