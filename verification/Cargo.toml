[package]
name = "pico_cover_gb"
version = "0.1.0"
edition = "2021"
publish = false

[dependencies]
image = { version = "=0.25.10", default-features = false, features = ["png", "jpeg", "gif", "webp", "bmp", "ico", "tiff", "tga", "pnm", "qoi", "hdr", "dds", "ff"] }
color_quant = "=1.1.0"
urlencoding = "=2.1.3"
walkdir = "=2.5.0"
anyhow = "=1.0.104"
clap = { version = "=4.6.7", features = ["derive"] }
tokio = { version = "=1.54.1", features = ["rt-multi-thread", "macros", "sync"] }
indicatif = "=0.17.11"
num_cpus = "=1.17.0"
reqwest = { version = "=0.12.28", default-features = false, features = ["blocking"] }
eframe = { version = "0.31.1", default-features = false, features = ["default_fonts", "glow", "x11"] }
egui = "0.31.1"
