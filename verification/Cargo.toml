[package]
name = "dictate"
version = "0.1.0"
edition = "2021"
publish = false

[dependencies]
anyhow = "1"
cpal = "*"
handy-keys = "*"
rubato = "0.16"
serde = { version = "1", features = ["derive"] }
toml = "*"
transcribe-cpp = "*"
win-text-inject = "*"
windows = { version = "*", features = ["Win32_Foundation", "Win32_Graphics_Gdi", "Win32_System_LibraryLoader", "Win32_UI_Shell", "Win32_UI_WindowsAndMessaging"] }
winreg = "*"
