[package]
name = "synth"
version = "0.1.0"
edition = "2021"
publish = false

[dependencies]
getrandom = "0.2"
claxon = "0.4"
realfft = "3"
rustfft = "6"
