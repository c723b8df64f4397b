[package]
name = "medbill"
version = "0.1.0"
edition = "2021"
publish = false

[dependencies]
log = "=0.4.34"
rusqlite = { version = "=0.41.0", features = ["bundled"] }
tauri = { version = "=2.12.5", default-features = false }
tauri-plugin-fs = "2"
tauri-plugin-log = "2"
