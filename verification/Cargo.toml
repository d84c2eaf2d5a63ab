[package]
name = "cordial"
version = "0.1.0"
edition = "2021"
publish = false

[dependencies]
zbus = "=5.19.0"
serde = { version = "=1.0.229", features = ["derive"] }
serde_json = "=1.0.154"
libadwaita = "=0.9.2"
