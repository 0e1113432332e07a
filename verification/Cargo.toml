[package]
name = "mars_raw_utils"
version = "0.1.0"
edition = "2021"
publish = false

[dependencies]
anyhow = "1"
async-trait = "0.1"
clap = { version = "3", features = ["derive"] }
sciimg = "*"
serde_json = "1"
