[package]
name = "opt_remarks"
version = "0.1.0"
edition = "2021"
publish = false

[dependencies]
serde = "1"
serde_yaml = "0.9"
rustc-demangle = "0.1"
anyhow = "1"
log = "0.4"
rayon = "1"
