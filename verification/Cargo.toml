[package]
name = "prek"
version = "0.1.0"
edition = "2021"
publish = false

[dependencies]
anyhow = "1"
clap = { version = "4", features = ["derive"] }
fancy-regex = "0.14"
fs-err = "3"
indoc = "2"
owo-colors = "4"
rand = "0.9"
rustc-hash = "2"
semver = "1"
serde = { version = "1", features = ["derive"] }
serde_ignored = "0.1"
serde_yaml = "0.9"
textwrap = "0.16"
thiserror = "2"
unicode-width = "0.2"
url = "2"
