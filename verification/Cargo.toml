[package]
name = "realtime_dsp"
version = "0.1.0"
edition = "2021"
publish = false

[dependencies]
alsa = "0.9"
serde = { version = "1", features = ["derive"] }
serde_json = "1"
zmq = "0.10"
