[package]
name = "cockroach_reminder"
version = "0.1.0"
edition = "2021"
publish = false

[dependencies]
image = { version = "=0.25.10", default-features = false, features = ["bmp", "dds", "exr", "ff", "gif", "hdr", "ico", "jpeg", "png", "pnm", "qoi", "tga", "tiff", "webp"] }
iced = { version = "=0.14.0", default-features = false, features = ["tiny-skia", "canvas", "image", "tokio", "x11"] }
rand = "=0.8.8"
serde = { version = "=1.0.229", features = ["derive"] }
serde_json = "=1.0.154"
dirs = "=6.0.0"
raw-window-handle = "=0.6.2"
objc2 = "=0.5.3"
windows-sys = { version = "=0.59.0", features = ["Win32_Foundation", "Win32_Graphics_Gdi", "Win32_UI_WindowsAndMessaging"] }
x11rb = { version = "=0.13.2", features = ["xinerama"] }
