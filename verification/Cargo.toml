[package]
name = "crust"
version = "0.1.0"
edition = "2021"
publish = false

[dependencies]
chrono = "0.4"
home = "0.5"
rand = "*"
serde = { version = "1", features = ["derive"] }
tar = "*"
toml = "*"
zstd = "*"
