[package]
name = "wow_ui_sim"
version = "0.1.0"
edition = "2021"
publish = false

[dependencies]
serde = { version = "1", features = ["derive"] }
serde_json = "1"
glob = "0.3"
libc = "0.2"
dirs = "5"
image = { version = "0.25", default-features = false, features = ["png"] }
