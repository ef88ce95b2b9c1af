[package]
name = "valle-motion"
version = "0.1.0"
edition = "2021"
publish = false

[dependencies]
cssparser = "0.36"
geo = "=0.33.1"
serde = { version = "1", features = ["derive"] }
sha2 = "=0.10.9"
takumi-core = "=0.23.1"
ttf-parser = "=0.25.1"
