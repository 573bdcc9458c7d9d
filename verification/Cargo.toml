[package]
name = "privoxy"
version = "0.1.0"
edition = "2021"
publish = false

[dependencies]
regex = "1"
flate2 = "1"
base64 = "0.22"
chrono = "0.4"
httparse = "1"
ipnet = "2"
rand = "0.8"
clap = { version = "4", features = ["derive"] }
