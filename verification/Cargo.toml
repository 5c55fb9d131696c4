[package]
name = "remote_open_power"
version = "0.1.0"
edition = "2021"
publish = false

[dependencies]
chrono = "=0.4.45"
clap = { version = "=4.6.7", features = ["derive"] }
hex = "=0.4.3"
libc = "=0.2.191"
postcard = { version = "=1.1.3", features = ["use-std"] }
rand = "=0.8.8"
serde = { version = "=1.0.229", features = ["derive"] }
sha2 = "=0.10.9"
snow = "=0.10.0"
socket2 = { version = "=0.6.5", features = ["all"] }
thiserror = "=2.0.21"
toml = "=0.9.12+spec-1.1.0"
windows-sys = { version = "=0.61.2", features = ["Win32_Foundation", "Win32_Security", "Win32_Security_Authorization", "Win32_Storage_FileSystem", "Win32_System_SystemInformation", "Win32_System_Threading"] }
x25519-dalek = { version = "=2.0.1", features = ["static_secrets"] }
zeroize = "=1.9.1"

[dev-dependencies]
serde_json = "=1.0.154"
