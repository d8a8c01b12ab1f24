[package]
name = "xray_tile"
version = "0.1.0"
edition = "2021"
publish = false

[dependencies]
cgmath = "0.17"
clap = "2"
collision = "0.20"
