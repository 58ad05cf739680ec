[package]
name = "cpo_analyzer"
version = "0.1.0"
edition = "2021"
publish = false

[dependencies]
csv = "*"
libflate = "*"
ndarray = { version = "*", features = ["rayon"] }
plotters = "*"
rayon = "*"
serde = { version = "*", features = ["derive"] }
serde_derive = "*"
structopt = "*"
toml = "*"
