[package]
name = "tj_videoprep"
version = "0.1.0"
edition = "2021"
publish = false

[dependencies]
serde = { version = "=1.0.229", features = ["derive"] }
serde_json = "=1.0.154"
ureq = { version = "=2.12.1", features = ["json"] }
sevenz-rust = "=0.6.1"
tauri = { version = "=2.12.5", default-features = false }
rfd = { version = "=0.15.4", default-features = false, features = ["gtk3"] }
