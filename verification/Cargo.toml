[package]
name = "grabit"
version = "0.1.0"
edition = "2021"
publish = false

[dependencies]
ab_glyph = "=0.2.32"
anyhow = "=1.0.104"
base64 = "=0.23.1"
chrono = "=0.4.45"
crossbeam-channel = "=0.5.17"
dirs = "=7.0.0"
env_logger = "=0.11.11"
gif = "=0.14.2"
global-hotkey = "=0.9.0"
image = { version = "=0.25.10", default-features = false, features = ["png", "gif"] }
imageproc = { version = "=0.27.0", default-features = false }
log = "=0.4.35"
parking_lot = "=0.13.0"
rayon = "=1.12.0"
rmp-serde = "=1.3.1"
serde = { version = "=1.0.229", features = ["derive"] }
serde_json = "=1.0.154"
toml = "=1.1.8"
uuid = { version = "=1.29.0", features = ["v4", "serde"] }
windows = { version = "=0.58.0", features = ["Win32_Foundation", "Win32_Graphics_Gdi", "Win32_System_DataExchange", "Win32_System_Memory", "Win32_UI_HiDpi", "Win32_UI_Shell", "Win32_UI_WindowsAndMessaging"] }
