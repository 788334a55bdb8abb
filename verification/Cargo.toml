[package]
name = "declscan"
version = "0.1.0"
edition = "2021"
publish = false

[dependencies]
syn = { version = "2", features = ["full"] }
quote = "1"
prettyplease = "0.2"
toml = "*"
walkdir = "2"
