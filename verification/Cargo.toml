[package]
name = "ratatui_image"
version = "0.1.0"
edition = "2021"
publish = false

[dependencies]
base64 = "*"
image = { version = "*", default-features = false, features = ["png"] }
rand = "*"
ratatui = { version = "*", default-features = false }
rustix = { version = "*", features = ["termios"] }
serde = { version = "*", features = ["derive"] }
