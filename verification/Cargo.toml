[package]
name = "marswm"
version = "0.1.0"
edition = "2021"
publish = false

[dependencies]
serde = { version = "*", features = ["derive"] }
serde_yaml = "*"
toml = "*"
xdg = "*"
x11 = { version = "=2.21.0", features = ["xlib"] }
