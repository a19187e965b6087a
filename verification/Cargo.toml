[package]
name = "zeo-systray"
version = "0.1.0"
edition = "2021"
publish = false

[dependencies]
ksni = { version = "0.3", features = ["blocking"] }
notify-rust = "4"
serde = { version = "1", features = ["derive"] }
serde_json = "1"
tracing = "0.1"
tracing-subscriber = { version = "0.3", features = ["json", "env-filter"] }
