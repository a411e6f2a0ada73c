[package]
name = "esp_scanner_base"
version = "0.1.0"
edition = "2021"
publish = false

[dependencies]
serde = { version = "1", features = ["derive"] }
serde_json = "1"
chrono = { version = "0.4", features = ["serde"] }
hostname = "0.4"
uuid = { version = "1", features = ["v4"] }
