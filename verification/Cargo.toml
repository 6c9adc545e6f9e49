[package]
name = "framework"
version = "0.1.0"
edition = "2021"
publish = false

[dependencies]
anyhow = "1"
ash = "0.38"
vk-mem = "0.4"
glam = "*"
image = "0.25"
rand = "*"
