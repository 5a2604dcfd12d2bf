[package]
name = "texclean"
version = "0.1.0"
edition = "2021"
publish = false

[dependencies]
clap = { version = "4", features = ["derive"] }
ctrlc = "3"
owo-colors = "*"
strum = { version = "*", features = ["derive"] }
thiserror = "*"
walkdir = "2"
