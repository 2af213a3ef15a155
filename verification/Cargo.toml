[package]
name = "groxide"
version = "0.1.0"
edition = "2021"
publish = false

[dependencies]
cargo_metadata = "*"
clap = { version = "4", features = ["derive"] }
dirs = "*"
flate2 = "1"
rmp-serde = "1"
rustdoc-types = "*"
semver = "1"
serde = { version = "1", features = ["derive"] }
serde_json = "1"
tar = "0.4"
thiserror = "2"
ureq = "*"
