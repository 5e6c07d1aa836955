[package]
name = "ember_bridge"
version = "0.5.0"
edition = "2021"
publish = false

[dependencies]
reqwest = { version = "=0.12.28", default-features = false }
rand = "=0.8.8"
bytes = "=1.12.1"
serde = { version = "=1.0.229", features = ["derive"] }
serde_json = "=1.0.154"
tokio = { version = "=1.54.1", features = ["sync", "rt", "macros", "time"] }
async-trait = "=0.1.92"
tauri = { version = "2", default-features = false }
tauri-plugin-deep-link = "2"
tauri-plugin-updater = { version = "2", default-features = false }
