[package]
name = "vencord_installer"
version = "0.1.0"
edition = "2021"
publish = false

[dependencies]
sysinfo = "*"
chrono = "*"
dirs = "*"
dunce = "*"
libc = "*"
serde = { version = "*", features = ["derive"] }
serde_json = "*"
reqwest = { version = "*", default-features = false, features = ["blocking"] }
