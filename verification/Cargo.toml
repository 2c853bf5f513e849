[package]
name = "voice_keyboard"
version = "0.1.0"
edition = "2021"
publish = false

[dependencies]
anyhow = "1"
dasp_sample = "0.11"
hound = "3.5"
num_cpus = "1"
rubato = "0.15"
serde = { version = "1", features = ["derive"] }
serde_json = "1"
tokio = { version = "1", default-features = false, features = ["sync"] }
