[package]
name = "libdr"
version = "0.1.0"
edition = "2021"
publish = false

[dependencies]
semver = "*"
serde_json = "*"
toml_edit = "*"
reqwest = { version = "*", default-features = false, features = ["blocking", "gzip"] }
structopt = "*"
