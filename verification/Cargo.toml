[package]
name = "fastzip"
version = "0.1.0"
edition = "2021"
publish = false

[dependencies]
zip = "=8.6.0"
sevenz-rust = { version = "=0.6.1", features = ["aes256"] }
tar = "=0.4.46"
flate2 = "=1.1.10"
xz2 = "=0.1.7"
bzip2 = "=0.6.1"
zstd = "=0.14.0"
clap = { version = "=4.6.7", features = ["derive"] }
walkdir = "=2.5.0"
rayon = "=1.12.0"
