[package]
name = "chip8"
version = "0.1.0"
edition = "2021"
publish = false

[dependencies]
rand = "=0.8.5"
pixels = "0.10"
winit = "0.27"
winit_input_helper = "0.13"
