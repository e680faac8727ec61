[package]
name = "hydra_httpdl"
version = "0.1.0"
edition = "2021"
publish = false

[dependencies]
sha2 = "*"
urlencoding = "*"
reqwest = { version = "*", default-features = false }
tokio = { version = "*", features = ["full"] }
futures = "*"
clap = { version = "*", features = ["derive"] }
indicatif = "*"
serde_json = "*"
anyhow = "*"
