[package]
name = "link_checker"
version = "0.1.0"
edition = "2021"
publish = false

[dependencies]
clap = { version = "4", features = ["derive"] }
ctrlc = "3"
regex = "1"
scraper = "*"
serde = { version = "1", features = ["derive"] }
serde_json = "1"
ureq = "3"
url = "2"
