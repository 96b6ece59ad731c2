[package]
name = "acs_scraper"
version = "0.1.0"
edition = "2021"
publish = false

[dependencies]
anyhow = "1"
clap = { version = "4", features = ["derive"] }
futures = "0.3"
indicatif = "0.17"
log = "0.4"
pretty_env_logger = "0.5"
rand = "0.8"
regex = "1"
reqwest = { version = "0.11", features = ["json"] }
scraper = "*"
serde = { version = "1", features = ["derive"] }
serde_json = "1"
titlecase = "*"
tokio = { version = "1", features = ["full"] }
