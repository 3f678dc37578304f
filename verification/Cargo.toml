[package]
name = "aparatchi"
version = "0.1.0"
edition = "2021"
publish = false

[dependencies]
anyhow = "1"
directories = "5"
image = { version = "0.25", default-features = false, features = ["png", "jpeg", "gif", "webp", "bmp"] }
rand = "0.8"
reqwest = { version = "0.12", default-features = false, features = ["blocking", "json", "rustls-tls"] }
rfd = { version = "0.14", default-features = false, features = ["xdg-portal", "async-std"] }
rusqlite = { version = "0.31", features = ["bundled"] }
serde_json = "1"
winreg = "0.52"
