[package]
name = "dagger"
version = "0.1.0"
edition = "2021"
publish = false

[dependencies]
rusqlite = { version = "*", features = ["bundled"] }
xxhash-rust = { version = "*", features = ["xxh3"] }
image = { version = "*", default-features = false, features = ["png", "jpeg", "gif", "bmp"] }
base64 = "*"
parselnk = "*"
jwalk = "*"
serde = { version = "*", features = ["derive"] }
serde_json = "*"
dirs-next = "*"
dunce = "*"
