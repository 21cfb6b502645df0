[package]
name = "autebooks"
version = "0.1.0"
edition = "2021"
publish = false

[dependencies]
chrono = { version = "0.4", features = ["serde"] }
clap = { version = "4", features = ["derive"] }
clap_complete = "4"
colorful = "*"
dirs = "*"
epub = "*"
eyre = "0.6"
governor = "*"
ignore = "0.4"
image = { version = "0.25", default-features = false, features = ["png", "jpeg"] }
indicatif = "*"
lazy-regex = "*"
rayon = "1"
regex = "1"
scraper = "*"
serde = { version = "1", features = ["derive"] }
serde_json = "1"
tempfile = "3"
ureq = "3"
url = "2"
uuid = { version = "1", features = ["v4"] }
webp = "*"
xml-rs = "0.8"
zip = { version = "*", default-features = false, features = ["deflate"] }
