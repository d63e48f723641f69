[package]
name = "screenshot_tool"
version = "0.1.0"
edition = "2021"
publish = false

[dependencies]
image = { version = "0.25", default-features = false, features = ["png"] }
eframe = { version = "0.30", default-features = false, features = ["default_fonts", "glow", "x11"] }
chrono = "0.4"
arboard = "3"
ab_glyph = "0.2"
tracing = "0.1"
tracing-subscriber = "0.3"
