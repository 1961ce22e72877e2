[package]
name = "wmts_nav"
version = "0.1.0"
edition = "2021"
publish = false

[dependencies]
roxmltree = "*"
reqwest = { version = "*", default-features = false, features = ["blocking"] }
image = "*"
structopt = "*"
