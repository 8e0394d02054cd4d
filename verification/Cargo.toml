[package]
name = "planet_textures"
version = "0.1.0"
edition = "2021"
publish = false

[dependencies]
godot = "0.2"
rand = "0.8"
rand_pcg = "0.3"
rand_seeder = "0.2"
