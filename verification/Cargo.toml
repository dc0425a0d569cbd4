[package]
name = "sonora"
version = "0.1.0"
edition = "2021"
publish = false

[dependencies]
anyhow = "1"
dirs = "*"
log = "0.4"
raw-window-handle = "0.6"
tokio = { version = "1", features = ["sync"] }
windows-sys = { version = "0.59", features = ["Win32_Foundation", "Win32_UI_WindowsAndMessaging"] }
