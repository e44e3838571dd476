[package]
name = "kamera"
version = "0.1.0"
edition = "2021"
publish = false

[dependencies]
ffimage = "=0.9.0"
ffimage_yuv = "=0.9.0"
image = { version = "=0.24.9", default-features = false, features = ["jpeg"] }
v4l = "=0.14.0"
objc2 = "=0.6.5"
objc2-foundation = "=0.3.2"
objc2-av-foundation = "=0.3.2"
objc2-core-foundation = "=0.3.2"
objc2-core-media = "=0.3.2"
objc2-core-video = "=0.3.2"
dispatch2 = "=0.3.1"
