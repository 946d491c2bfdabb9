[package]
name = "melo"
version = "0.1.0"
edition = "2021"
publish = false

[dependencies]
anyhow = "1"
crossterm = "0.28"
dirs = "5"
fastrand = "2"
image = { version = "0.25", default-features = false, features = ["jpeg", "png"] }
lofty = "0.22"
ratatui = "0.29"
rustfft = "6"
walkdir = "2"
