[package]
name = "led_matrix"
version = "0.1.0"
edition = "2021"
publish = false

[dev-dependencies]
tiny-led-matrix = "=1.0.2"
