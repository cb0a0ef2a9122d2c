[package]
name = "jtetris"
version = "0.1.0"
edition = "2021"
publish = false

[dependencies]
gtk = "0.18"
rand = "0.8"
sdl2 = "0.35"
