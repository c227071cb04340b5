[package]
name = "forgeplayer"
version = "1.7.1"
edition = "2021"
publish = false

[dependencies]
anyhow = "=1.0.104"
bytemuck = { version = "=1.25.2", features = ["derive"] }
crossbeam-channel = "=0.5.17"
eframe = { version = "=0.31.1", default-features = false, features = ["default_fonts", "wgpu", "x11"] }
env_logger = "=0.11.11"
ffmpeg-next = "=7.1.0"
log = "=0.4.35"
parking_lot = "=0.12.5"
wgpu = "=24.0.5"
windows = { version = "=0.58.0", features = ["Win32_Foundation", "Win32_Graphics_Direct3D", "Win32_Graphics_Direct3D11", "Win32_Graphics_Direct3D12", "Win32_Graphics_Dxgi", "Win32_Graphics_Dxgi_Common", "Win32_Security", "Win32_System_Threading"] }
