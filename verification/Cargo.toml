[package]
name = "minecraft_rust"
version = "0.1.0"
edition = "2021"
publish = false

[dependencies]
rand = "0.8"
bincode = "1.3"
serde = { version = "1", features = ["derive"] }
noise = "0.7"
nalgebra = "0.32"
glium = "0.31"
image = "0.24"
tobj = "3"
