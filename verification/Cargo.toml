[package]
name = "live_transcript"
version = "0.1.0"
edition = "2021"
publish = false

[dependencies]
anyhow = "=1.0.104"
cpal = "=0.15.3"
hound = "=3.5.1"
rubato = "=0.16.2"
symphonia = { version = "=0.5.5", features = ["aac", "isomp4"] }
whisper-rs = "=0.14.4"
