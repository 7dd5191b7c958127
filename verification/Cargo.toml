[package]
name = "airports"
version = "0.1.0"
edition = "2021"
publish = false

[dependencies]
geoutils = "0.5"
serde = { version = "1", features = ["derive"] }
