[package]
name = "vzglyd_clock"
version = "0.1.0"
edition = "2021"
publish = false

[dependencies]
vzglyd-slide = "*"
glam = "*"
bytemuck = { version = "1", features = ["derive"] }
serde = { version = "1", features = ["derive"] }
serde_json = "1"
postcard = { version = "1", features = ["use-std"] }
