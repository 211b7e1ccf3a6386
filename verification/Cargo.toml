[package]
name = "netlimiter"
version = "0.1.0"
edition = "2021"
publish = false

[dependencies]
rustc-hash = "2"
serde = { version = "1", features = ["derive"] }
serde_json = "1"
arc-swap = "1"
crossbeam-channel = "0.5"
log = "0.4"
env_logger = "0.11"
windivert = "*"
windows = { version = "0.58", features = ["Win32_Foundation", "Win32_NetworkManagement_IpHelper", "Win32_Networking_WinSock", "Win32_System_ProcessStatus", "Win32_System_Threading", "Win32_System_Services", "Win32_System_Pipes", "Win32_Storage_FileSystem", "Win32_System_Console", "Win32_Security", "Win32_System_IO"] }
