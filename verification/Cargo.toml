[package]
name = "waltzgps"
version = "0.1.0"
edition = "2021"
publish = false

[dependencies]
futures-channel = "0.3"
futures-util = "0.3"
gio = "0.20"
gtk4 = { version = "0.9", features = ["v4_10"] }
serde = { version = "1", features = ["derive"] }
toml = "0.8"
