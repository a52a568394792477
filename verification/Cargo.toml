[package]
name = "structloglint"
version = "0.1.0"
edition = "2021"
publish = false

[dependencies]
rustpython-parser = "0.4"
inflections = "1"
globset = "0.4"
clap = { version = "4", features = ["derive"] }
colored = "2"
ignore = "0.4"
rayon = "1"
serde = { version = "1", features = ["derive"] }
toml = "0.8"
thiserror = "2"
