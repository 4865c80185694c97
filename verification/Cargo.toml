[package]
name = "herdr-glance-core"
version = "0.1.0"
edition = "2021"
publish = false

[dependencies]
serde = { version = "1", features = ["derive"] }
serde_json = "1"
thiserror = "2"
dirs = "6"
tokio = { version = "1", features = ["process", "time", "sync", "rt", "macros"] }
tauri = { version = "2", default-features = false }
tauri-plugin-window-state = "2"
