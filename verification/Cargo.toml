[package]
name = "extension_site"
version = "0.1.0"
edition = "2021"
publish = false

[dependencies]
json5 = "=1.3.3"
minijinja = "=2.24.0"
serde = "=1.0.229"
