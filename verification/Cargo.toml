[package]
name = "tray-icon"
version = "0.1.0"
edition = "2021"
publish = false

[dependencies]
base64 = "0.22"
png = "0.18"
serde = { version = "1", features = ["derive"] }
serde_json = "1"
crossbeam-channel = "0.5"
log = "0.4"
once_cell = "1"
openharmony-ability = "*"
