[package]
name = "doorstate"
version = "0.1.0"
edition = "2021"
publish = false

[dependencies]
chrono = "0.4"
clap = "2"
regex = "1"
rumqttc = "0.11"
rust-pigpio = "*"
serde = { version = "1", features = ["derive"] }
serde_json = "1"
spaceapi = "0.7"
