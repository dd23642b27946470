[package]
name = "eaip"
version = "0.4.0"
edition = "2021"
publish = false

[dependencies]
airac = "*"
async-trait = "*"
chrono = "*"
ego-tree = "*"
lazy_static = "*"
log = "*"
regex = "*"
reqwest = "*"
scraper = "*"
url = "*"
