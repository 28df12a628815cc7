[package]
name = "disk_reviewer"
version = "0.1.0"
edition = "2021"
publish = false

[dependencies]
chrono = "0.4"
crossbeam-channel = "0.5"
dirs = "5"
eframe = { version = "0.33", default-features = false, features = ["default_fonts", "glow", "x11"] }
egui = "0.33"
rayon = "1"
rusqlite = { version = "0.32", features = ["bundled"] }
serde = { version = "1", features = ["derive"] }
serde_json = "1"
thiserror = "1"
windows = { version = "0.58", features = ["Win32_Foundation", "Win32_Storage_FileSystem"] }
