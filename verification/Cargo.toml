[package]
name = "vgui"
version = "0.1.0"
edition = "2021"
publish = false

[dependencies]
color-eyre = "0.6"
colored = "2"
eframe = { version = "0.27", default-features = false, features = ["glow", "default_fonts"] }
eyre = "0.6"
tokio = { version = "1", features = ["macros", "rt-multi-thread"] }
