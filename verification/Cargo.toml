[package]
name = "vecmeta"
version = "0.1.0"
edition = "2021"
publish = false

[dependencies]
base64 = "0.22"
clap = { version = "4", features = ["derive"] }
fontdb = "0.23"
kurbo = "0.11"
roxmltree = "0.20"
simplecss = "0.2"
svgtypes = "0.15"
thiserror = "2"
ttf-parser = "0.25"
