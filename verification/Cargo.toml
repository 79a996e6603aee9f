[package]
name = "folder_classifier"
version = "0.1.0"
edition = "2021"
publish = false

[dependencies]
globset = "0.4"
walkdir = "2"
serde = { version = "1", features = ["derive"] }
serde_json = "1"
rusqlite = { version = "*", features = ["bundled"] }
open = "5"
tauri = { version = "2", default-features = false }
