[package]
name = "rustscript"
version = "0.1.0"
edition = "2021"
publish = false

[dependencies]
rust-crypto = "0.2"
semver = "1"
app_dirs = "1"
clap = "2"
