[package]
name = "endfield_accounts"
version = "0.1.0"
edition = "2021"
publish = false

[dependencies]
sha2 = "0.10"
hex = "0.4"
uuid = { version = "1", features = ["v4"] }
chrono = "0.4"
sysinfo = "*"
serde = { version = "1", features = ["derive"] }
serde_json = "1"
