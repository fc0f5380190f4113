[package]
name = "imageflow_core"
version = "0.1.0"
edition = "2021"
publish = false

[dependencies]
png = "*"
itertools = "*"
clap = "*"
serde = { version = "*", features = ["derive"] }
serde_json = "*"
zip = { version = "*", default-features = false }
