[package]
name = "holyland"
version = "0.1.0"
edition = "2021"
publish = false

[dependencies]
serde = { version = "1", features = ["derive"] }
image = { version = "*", default-features = false, features = ["png"] }
sdl2 = "*"
gilrs = "*"
