[package]
name = "audio_notifier"
version = "0.1.0"
edition = "2021"
publish = false

[dependencies]
serde = { version = "1", features = ["derive"] }
serde_json = "1"
serde_yaml = "0.9"
sha2 = "0.10"
chrono = "0.4"
reqwest = { version = "0.12", default-features = false, features = ["blocking", "json"] }
