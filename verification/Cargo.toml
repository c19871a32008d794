[package]
name = "juju"
version = "0.1.0"
edition = "2021"
publish = false

[dependencies]
serde = { version = "*", features = ["derive"] }
serde_yaml = "*"
zip = "*"
rayon = "*"
tempfile = "*"
dirs = "*"
petgraph = "*"
