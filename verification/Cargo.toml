[package]
name = "money_calendar"
version = "0.1.0"
edition = "2021"
publish = false

[dependencies]
chrono = { version = "0.4", default-features = false, features = ["clock", "std"] }
eframe = { version = "0.31", default-features = false, features = ["default_fonts", "glow", "x11"] }
