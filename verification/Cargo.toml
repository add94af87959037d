[package]
name = "alacritty"
version = "0.1.0"
edition = "2021"
publish = false

[dependencies]
rustybuzz = "*"
unicode-width = "*"
serde = { version = "1", features = ["derive"] }
crossfont = "*"
libc = "0.2"
