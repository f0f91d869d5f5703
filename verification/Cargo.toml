[package]
name = "tiny_sdl2_gui"
version = "0.1.0"
edition = "2021"
publish = false

[dependencies]
compact_str = "0.9.1"
sdl2 = { version = "0.38.0", features = ["ttf", "mixer"] }
weak-table = "0.3"
noise = "0.9.0"
rayon = "1.10.0"
