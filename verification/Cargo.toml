[package]
name = "chip8"
version = "0.1.0"
edition = "2021"
publish = false

[dependencies]
rand = "0.8"
log = "0.4"
chrono = "0.4"
clap = { version = "3", features = ["cargo"] }
fern = "0.6"
cpal = "0.13"
iced = { version = "0.3", features = ["canvas", "tokio"] }
iced_native = "0.4"
