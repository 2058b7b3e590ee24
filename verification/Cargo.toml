[package]
name = "intern_local"
version = "0.1.0"
edition = "2021"
publish = false

[dependencies]
base64 = "0.22"
clap = { version = "4", features = ["derive"] }
screenshots = "0.8"
serde = { version = "1", features = ["derive"] }
serde_json = "1"
tungstenite = "0.21"
windows-sys = { version = "0.52", features = ["Win32_Foundation", "Win32_UI_WindowsAndMessaging", "Win32_System_Console"] }
