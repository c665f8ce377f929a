[package]
name = "spitfire"
version = "0.1.0"
edition = "2021"
publish = false

[dependencies]
etagere = "*"
fontdue = "*"
glow = "*"
bytemuck = "*"
