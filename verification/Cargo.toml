[package]
name = "blackhole"
version = "0.1.0"
edition = "2021"
publish = false

[dependencies]
chrono = "*"
dirs = "*"
fs_extra = "*"
log = "*"
opener = "*"
quick-xml = "*"
rust-ini = "*"
serde = { version = "*", features = ["derive"] }
serde_json = "*"
trash = "*"
uuid = { version = "*", features = ["v4"] }
