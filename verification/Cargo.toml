[package]
name = "mission_model"
version = "0.1.0"
edition = "2021"
publish = false

[dependencies]
nalgebra = { version = "*", features = ["serde-serialize"] }
serde = { version = "*", features = ["derive"] }
uuid = { version = "*", features = ["serde"] }
