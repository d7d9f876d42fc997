[package]
name = "kmbox_isp"
version = "0.1.0"
edition = "2021"
publish = false

[dependencies]
anyhow = "1"
clap = { version = "4", features = ["derive"] }
hex = "0.4"
hxdmp = "0.2"
log = "0.4"
simplelog = "0.12"
