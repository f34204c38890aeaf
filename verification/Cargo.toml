[package]
name = "daily_plan"
version = "0.1.0"
edition = "2021"
publish = false

[dependencies]
sha2 = "0.10"
serde = { version = "1", features = ["derive"] }
serde_json = "1"
chrono = "0.4"
dirs = "5"
rusqlite = "0.31"
tokio = { version = "1", features = ["time", "rt"] }
libloading = "0.8"
winapi = { version = "0.3", features = ["winuser", "wingdi", "dwmapi", "winreg", "minwindef", "windef"] }
windows-sys = { version = "0.59", features = ["Win32_UI_Shell", "Win32_Foundation"] }
windows = { version = "0.58", features = ["Win32_System_Com", "Win32_UI_Shell", "Win32_Storage_FileSystem", "Win32_Foundation"] }
