[package]
name = "loudgain_rust"
version = "0.1.0"
edition = "2021"
publish = false

[dependencies]
clap = { version = "=4.6.7", features = ["derive"] }
ebur128 = "=0.1.10"
rayon = "=1.12.0"
rodio = { version = "=0.22.2", default-features = false, features = ["flac", "mp3", "mp4", "vorbis", "wav"] }
subprocess = "=1.2.1"
tempfile = "=3.27.0"
walkdir = "=2.5.0"
