[package]
name = "batch_ocr"
version = "0.1.0"
edition = "2021"
publish = false

[dependencies]
calamine = "*"
clap = { version = "4", features = ["derive"] }
csv = "1"
docx-rs = "*"
env_logger = "*"
image = { version = "0.25", default-features = false, features = ["jpeg", "png", "bmp", "tiff", "gif", "webp"] }
indicatif = "0.17"
log = "0.4"
pdf = "*"
pdf-extract = "*"
pdf-writer = "*"
rayon = "1"
serde = { version = "1", features = ["derive"] }
serde_json = "1"
walkdir = "2"
whatlang = "*"
which = "*"
