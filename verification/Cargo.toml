[package]
name = "apprentice"
version = "0.1.0"
edition = "2021"
publish = false

[dependencies]
rltk = "0.8"
ron = "0.6"
serde = { version = "1", features = ["derive"] }
specs = { version = "0.16", features = ["serde"] }
