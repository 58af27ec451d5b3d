[package]
name = "exmpeg_native"
version = "0.6.0"
edition = "2021"
publish = false

[dependencies]
rsmpeg = { version = "=0.18.0", features = ["link_system_ffmpeg"] }
rustler = "=0.38.0"
