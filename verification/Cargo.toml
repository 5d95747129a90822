[package]
name = "pikr"
version = "0.1.0"
edition = "2021"
publish = false

[dependencies]
anyhow = "1"
dirs = "6"
image = { version = "=0.25.10", default-features = false, features = ["png"] }
sha2 = "=0.10.9"
windows = { version = "0.62", features = ["Win32_Foundation", "Win32_Graphics_Gdi", "Win32_Storage_FileSystem", "Win32_UI_Shell", "Win32_UI_WindowsAndMessaging"] }
