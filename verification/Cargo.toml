[package]
name = "autovideo"
version = "0.1.0"
edition = "2021"
publish = false

[dependencies]
clap = { version = "*", features = ["derive"] }
image = "*"
image_dds = "*"
serde = { version = "*", features = ["derive"] }
