[package]
name = "print_transport"
version = "0.1.0"
edition = "2021"
publish = false

[dependencies]
log = "0.4"
serde = { version = "1", features = ["derive"] }
serialport = { version = "4", default-features = false }
tauri = { version = "2", default-features = false }
tauri-plugin-log = { version = "2", default-features = false }
