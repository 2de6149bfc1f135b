[package]
name = "audio_viz"
version = "0.1.0"
edition = "2021"
publish = false

[dependencies]
ringbuf = "0.3"
hound = "3"
rustfft = "6"
cpal = "0.15"
rodio = { version = "0.17", default-features = false, features = ["wav"] }
clap = { version = "4", features = ["derive"] }
