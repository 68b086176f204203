[package]
name = "idiom_tui"
version = "0.1.0"
edition = "2021"
publish = false

[dependencies]
unicode-width = "*"
crossterm = "*"
serde_json = "*"
coolor = "*"
xterm-query = "*"
