[package]
name = "sorakey"
version = "0.1.9"
edition = "2021"
publish = false

[dependencies]
chrono = "0.4"
cpal = "0.15"
crossbeam-channel = "0.5"
directories = "5"
evdev = "0.13"
hound = "3.5"
libc = "0.2"
rubato = "0.15"
serde = { version = "1", features = ["derive"] }
serde_json = "1"
symphonia = { version = "0.5", features = ["mp3", "aac", "isomp4"] }
