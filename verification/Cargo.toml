[package]
name = "phoenix_forge"
version = "0.1.0"
edition = "2021"
publish = false

[dependencies]
sha2 = "*"
uuid = { version = "*", features = ["v4"] }
anyhow = "*"
libc = "*"
plist = "*"
serde = { version = "*", features = ["derive"] }
serde_json = "*"
serde_yaml = "*"
zip = "*"

[dev-dependencies]
