[package]
name = "mdbook_theme"
version = "0.1.0"
edition = "2021"
publish = false

[dependencies]
mdbook = { version = "=0.4.52", default-features = false }
clap = "=4.6.7"
semver = "=1.0.28"
serde = "=1.0.229"
serde_derive = "=1.0.229"
serde_json = "=1.0.151"
