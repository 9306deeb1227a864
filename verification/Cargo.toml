[package]
name = "terraria_server"
version = "0.1.0"
edition = "2021"
publish = false

[dependencies]
flate2 = "1"
rand = "0.8"
tokio = { version = "1", features = ["full"] }
anyhow = "1"
filetime = "0.2"
