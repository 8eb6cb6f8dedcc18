[package]
name = "mouse_trail"
version = "0.1.0"
edition = "2021"
publish = false

[dependencies]
rand = "0.10"
serde = { version = "1", features = ["derive"] }
serde_json = "1"
clap = { version = "4", features = ["derive"] }
winapi = { version = "0.3", features = ["winuser", "wingdi", "libloaderapi", "windef", "minwindef", "basetsd"] }
