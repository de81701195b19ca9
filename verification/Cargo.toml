[package]
name = "demo2"
version = "0.2.0"
edition = "2021"
publish = false

[dependencies]
anyhow = "=1.0.104"
async-trait = "=0.1.92"
biquad = "=0.6.0"
bytes = "=1.12.1"
dashmap = "=6.2.1"
eframe = { version = "=0.31.1", default-features = false, features = ["default_fonts", "glow", "x11"] }
egui_plot = "=0.32.1"
futures-util = "=0.3.34"
libloading = "=0.8.9"
serde = { version = "=1.0.229", features = ["derive"] }
serde_json = "=1.0.154"
serialport = { version = "=4.10.1", default-features = false }
sysinfo = { version = "0.29", default-features = false }
thiserror = "=1.0.69"
tokio = { version = "=1.54.1", features = ["full"] }
tokio-postgres = "=0.7.18"
toml = "=0.8.23"
tracing = "=0.1.44"
tracing-subscriber = { version = "=0.3.23", features = ["env-filter"] }
windows-sys = { version = "=0.61.2", features = ["Win32_Foundation", "Win32_System_LibraryLoader"] }
