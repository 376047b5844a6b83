[package]
name = "annoyodoro"
version = "0.1.0"
edition = "2021"
publish = false

[dependencies]
clap = { version = "*", default-features = false, features = ["derive", "std", "help", "usage", "error-context"] }
color-eyre = "*"
csscolorparser = "*"
dirs = "*"
figment = { version = "*", features = ["toml"] }
iced = { version = "*", default-features = false, features = ["tiny-skia", "tokio", "x11"] }
jiff = "=0.2.38"
notify-rust = "*"
serde = { version = "*", features = ["derive"] }
