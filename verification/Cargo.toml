[package]
name = "mdview"
version = "0.1.0"
edition = "2021"
publish = false

[dependencies]
comrak = "=0.56.0"
font-loader = "=0.11.0"
image = "=0.25.10"
ratatui = "=0.30.2"
ratatui-image = { version = "=11.1.0", default-features = false, features = ["image-defaults", "crossterm"] }
rusttype = "=0.9.3"
