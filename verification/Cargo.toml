[package]
name = "fusionner"
version = "0.1.0"
edition = "2021"
publish = false

[dependencies]
docopt = "1"
fern = "0.7"
git2 = { version = "0.20", default-features = false }
log = "0.4"
regex = "1"
serde = { version = "1", features = ["derive"] }
time = { version = "0.3", features = ["formatting"] }
toml = "0.5"
