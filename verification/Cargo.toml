[package]
name = "hijessy"
version = "0.1.0"
edition = "2021"
publish = false

[dependencies]
image = { version = "0.25", default-features = false, features = ["png", "jpeg"] }
global-hotkey = "0.7"
ab_glyph = "0.2"
anyhow = "1"
serde = { version = "1", features = ["derive"] }
toml = "0.9"
arboard = { version = "3", default-features = false }
eframe = { version = "0.33", default-features = false, features = ["glow", "x11", "default_fonts"] }
mouse_position = "0.1"
