[package]
name = "vectis"
version = "0.1.0"
edition = "2021"
publish = false

[dependencies]
clap = { version = "4", features = ["derive"] }
jsonschema = { version = "*", default-features = false }
roxmltree = "*"
serde = { version = "1", features = ["derive"] }
serde_json = "1"
serde-saphyr = "*"
syn = { version = "2", features = ["full"] }
toml = "*"
ureq = { version = "3", features = ["json"] }
