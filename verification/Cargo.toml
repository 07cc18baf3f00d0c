[package]
name = "scholarly_identifiers"
version = "0.1.0"
edition = "2021"
publish = false

[dependencies]
http = "=0.2.12"

[dev-dependencies]
percent-encoding = "=2.3.2"
regex = "=1.13.1"
