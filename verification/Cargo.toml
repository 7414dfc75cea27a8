[package]
name = "lazy_cruncher_workshop"
version = "0.9.1"
edition = "2021"
publish = false

[dependencies]
eframe = { version = "0.34.3", default-features = false, features = ["default_fonts", "glow", "x11"] }
rfd = { version = "0.15.4", default-features = false, features = ["xdg-portal", "async-std"] }
