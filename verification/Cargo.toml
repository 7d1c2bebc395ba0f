[package]
name = "busyflag"
version = "0.1.0"
edition = "2021"
publish = false

[dependencies]
serde = { version = "=1.0.229", features = ["derive"] }
serde_json = "=1.0.154"
log = "=0.4.35"
env_logger = "=0.11.11"
hidapi = { version = "=2.6.7", default-features = false, features = ["linux-native-basic-udev"] }
windows-sys = { version = "=0.61.2", features = ["Win32_System_RemoteDesktop", "Win32_Storage_FileSystem"] }
winreg = "=0.56.0"
