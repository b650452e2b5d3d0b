[package]
name = "reukocyte"
version = "0.1.0"
edition = "2021"
publish = false

[dependencies]
ruby-prism = "*"
rustc-hash = "*"
serde = { version = "*", features = ["derive"] }
serde_yaml = "*"
globset = "*"
