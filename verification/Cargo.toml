[package]
name = "vital_signs"
version = "0.1.0"
edition = "2021"
publish = false

[dependencies]
rand = "0.8"
serialport = { version = "4", default-features = false }
serde = { version = "1", features = ["derive"] }
serde_json = "1"
chrono = "0.4"
