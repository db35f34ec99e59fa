[package]
name = "window_restore"
version = "0.1.0"
edition = "2021"
publish = false

[dependencies]
serde_json = "1"
tauri-utils = "2"
