[package]
name = "music_theory"
version = "0.1.0"
edition = "2021"
publish = false

[dependencies]
once_cell = "1"
resvg = "0.45"
rodio = "0.21"
serde = { version = "1", features = ["derive"] }
serde_json = "1"
svg2pdf = "0.13"
tempfile = "3"
thiserror = "2"
usvg = "0.45"
uuid = { version = "1", features = ["v4"] }
