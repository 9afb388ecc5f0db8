[package]
name = "ems_telemetry"
version = "0.1.0"
edition = "2021"
publish = false

[dependencies]
chrono = "=0.4.45"
chrono-tz = "=0.10.4"
device_query = "*"
image = { version = "=0.24.9", default-features = false, features = ["jpeg", "png"] }
lazy_static = "1"
notify = "=6.1.1"
once_cell = "1"
rusb = "=0.9.4"
rusqlite = { version = "=0.40.2", features = ["bundled"] }
serde = { version = "1", features = ["derive"] }
serde_json = "1"
sysinfo = "=0.39.6"
tokio = { version = "1", features = ["rt-multi-thread", "time"] }
windows = { version = "0.48", features = ["Win32_Foundation", "Win32_System_SystemInformation", "Win32_UI_Input_KeyboardAndMouse", "Win32_UI_WindowsAndMessaging"] }
winreg = "=0.56.0"
