[package]
name = "keysfx"
version = "0.1.0"
edition = "2021"
publish = false

[dependencies]
hound = "=3.5.1"
alsa = "=0.12.1"
clap = { version = "=4.6.7", features = ["derive"] }
colpetto = { version = "=0.7.0", features = ["tokio"] }
rustix = { version = "=1.1.5", features = ["fs", "process"] }
tokio = { version = "=1.54.1", features = ["rt"] }
tokio-stream = "=0.1.19"
