[package]
name = "beadwall"
version = "0.1.0"
edition = "2021"
publish = false

[dependencies]
image = { version = "=0.25.10", default-features = false, features = ["png", "jpeg", "gif", "bmp", "ico", "tiff", "webp", "pnm", "tga", "qoi", "hdr", "dds", "exr", "ff"] }
base64 = "=0.22.1"
uuid = { version = "=1.29.0", features = ["v4"] }
chrono = "=0.4.45"
serde = { version = "=1.0.229", features = ["derive"] }
serde_json = "=1.0.154"
actix-web = "=4.18.1"
actix-multipart = "=0.8.5"
futures-util = "=0.3.34"
