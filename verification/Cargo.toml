[package]
name = "vwi"
version = "0.2.0"
edition = "2021"
publish = false

[dependencies]
anyhow = "1"
dirs = "6"
serde = { version = "1", features = ["derive"] }
toml = "0.8"
windows-core = "0.61"

[dependencies.windows]
version = "0.61"
features = ["Win32_Foundation", "Win32_UI_WindowsAndMessaging", "Win32_UI_Input_KeyboardAndMouse", "Win32_Graphics_Gdi", "Win32_Graphics_Dwm", "Win32_System_LibraryLoader", "Win32_UI_Shell"]
