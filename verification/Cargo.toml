[package]
name = "ridership"
version = "0.1.0"
edition = "2021"
publish = false

[dependencies]
csv = "1"
geoutils = "*"
serde = { version = "1", features = ["derive"] }
