[package]
name = "cs_trade_up"
version = "0.1.0"
edition = "2021"
publish = false

[dependencies]
rand = "0.8"
rusqlite = { version = "0.29", features = ["bundled"] }
serde = { version = "1", features = ["derive"] }
serde_json = "1"
eframe = { version = "0.23", default-features = false, features = ["default_fonts", "glow"] }
image = { version = "0.24", default-features = false, features = ["png", "jpeg"] }
base64 = "0.21"
