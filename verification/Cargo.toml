[package]
name = "vm"
version = "0.3.0"
edition = "2021"
publish = false

[dependencies]
atspi = { version = "=0.30.0", default-features = false, features = ["connection", "proxies", "tokio"] }
clap = { version = "=4.6.7", features = ["derive"] }
libc = "=0.2.191"
objc2-application-services = "=0.3.2"
objc2-core-foundation = "=0.3.2"
objc2-core-graphics = "=0.3.2"
serde = { version = "=1.0.229", features = ["derive"] }
serde_json = "=1.0.154"
tokio = { version = "=1.54.1", features = ["rt", "time", "net"] }
toml = "=1.1.8"
uiautomation = "=0.25.1"
windows = { version = "=0.62.2", features = ["Win32_Foundation", "Win32_Security", "Win32_System_JobObjects", "Win32_System_RemoteDesktop", "Win32_System_StationsAndDesktops", "Win32_System_SystemInformation", "Win32_System_Threading", "Win32_UI_Input_KeyboardAndMouse"] }
