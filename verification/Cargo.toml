[package]
name = "erika"
version = "0.1.0"
edition = "2021"
publish = false

[dependencies]
ash = "=0.38.0"
bytemuck = { version = "=1.25.2", features = ["derive"] }
objc2 = "=0.6.5"
objc2-core-foundation = "=0.3.2"
objc2-core-graphics = "=0.3.2"
objc2-core-video = "=0.3.2"
objc2-foundation = "=0.3.2"
objc2-metal = "=0.3.2"
objc2-quartz-core = "=0.3.2"
serde_json = "=1.0.154"
wgpu = { version = "=29.0.4", default-features = false, features = ["std", "vulkan"] }
windows = { version = "=0.52.0", features = ["Win32_Foundation", "Win32_Graphics_Direct3D", "Win32_Graphics_Direct3D_Fxc", "Win32_Graphics_Direct3D11", "Win32_Graphics_Dxgi", "Win32_Graphics_Dxgi_Common"] }
