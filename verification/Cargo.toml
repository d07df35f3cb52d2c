[package]
name = "speakeasy"
version = "0.1.0"
edition = "2021"
publish = false

[dependencies]
serde = { version = "=1.0.229", features = ["derive"] }
serde_json = "=1.0.154"
serde_yaml = "=0.9.34"
base64 = "=0.22.1"
uuid = { version = "=1.29.0", features = ["v4"] }
chrono = { version = "=0.4.45", default-features = false, features = ["clock"] }
ureq = { version = "=3.5.1", default-features = false, features = ["json", "rustls"] }
dirs = "=6.0.0"
hound = "=3.5.1"
rusqlite = { version = "=0.41.1", features = ["bundled"] }
eframe = { version = "=0.37.0", default-features = false, features = ["glow", "default_fonts"] }
egui = { version = "=0.37.0", default-features = false, features = ["default_fonts"] }
cpal = "=0.17.3"
nokhwa = { version = "=0.10.11", features = ["input-native"] }
