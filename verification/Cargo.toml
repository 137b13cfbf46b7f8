[package]
name = "domain_coloring"
version = "0.1.0"
edition = "2021"
publish = false

[dependencies]
hsl = "0.1"
image = { version = "*", default-features = false, features = ["png"] }
mexprp = "0.3"
pbr = "1"
rug = "1"
structopt = "0.3"
