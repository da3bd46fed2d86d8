[package]
name = "broken_links"
version = "0.1.0"
edition = "2021"
publish = false

[dependencies]
anyhow = "1"
bitvec = "1"
clap = "4"
cookie = "*"
fantoccini = "*"
indicatif = "0.17"
reqwest = "0.12"
serde_json = "1"
tokio = { version = "1", features = ["full"] }
url = "2"
