[package]
name = "herdr_gui"
version = "0.1.0"
edition = "2021"
publish = false

[dependencies]
fontdue = "0.9"
png = "0.17"
ratatui = { version = "0.29", default-features = false }
crossterm = "0.28"
winit = { version = "0.30", default-features = false, features = ["x11", "rwh_06"] }
