[package]
name = "rockfall"
version = "0.1.0"
edition = "2021"
publish = false

[dependencies]
amethyst = { version = "=0.15.3", default-features = false, features = ["renderer", "vulkan"] }
anyhow = "=1.0.104"
rand = "=0.7.3"
