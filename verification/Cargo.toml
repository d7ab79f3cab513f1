[package]
name = "sam"
version = "0.1.0"
edition = "2021"
publish = false

[dependencies]
anyhow = "1"
clap = { version = "4", features = ["derive"] }
confy = "*"
eframe = { version = "0.31", default-features = false, features = ["default_fonts", "glow", "x11"] }
gag = "1"
serde = { version = "1", features = ["derive"] }
steamworks = "*"
