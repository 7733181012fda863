[package]
name = "radio_cat"
version = "0.1.0"
edition = "2021"
publish = false

[dependencies]
async-trait = "0.1"
crossterm = "0.27"
egui = { version = "0.29", default-features = false, features = ["default_fonts"] }
monoio = { version = "0.2", features = ["legacy"] }
ratatui = "0.26"
thiserror = "1"
windows-sys = { version = "0.52", features = ["Win32_Foundation", "Win32_Devices_Communication", "Win32_Storage_FileSystem", "Win32_System_IO", "Win32_Security"] }
