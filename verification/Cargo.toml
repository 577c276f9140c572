[package]
name = "astro-video-player"
version = "0.1.0"
edition = "2021"
publish = false

[dependencies]
byteorder = "=1.5.0"
riff-io = "=0.1.2"
ser-io = "=0.1.1"
structopt = "=0.3.26"
iced = { version = "=0.3.0", features = ["image"] }
