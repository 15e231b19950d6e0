[package]
name = "dotman"
version = "0.1.0"
edition = "2021"
publish = false

[dependencies]
material-colors = "0.4.2"
quantette = "0.3.0"
serde = { version = "1", features = ["derive"] }
toml = "0.8"
upon = "0.8.1"
