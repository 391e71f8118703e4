[package]
name = "sndwrks_hud"
version = "0.1.0"
edition = "2021"
publish = false

[dependencies]
rosc = "0.10"
serde = { version = "1", features = ["derive"] }
serde_json = "1"
dirs = "*"
tokio = { version = "1", features = ["net", "rt", "macros", "sync"] }
tauri = { version = "2", default-features = false }
