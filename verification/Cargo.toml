[package]
name = "topojson"
version = "0.1.0"
edition = "2021"
publish = false

[dependencies]
geojson = "=0.12.0"
serde = { version = "=1.0.229", features = ["derive"] }
serde_json = "=1.0.154"
