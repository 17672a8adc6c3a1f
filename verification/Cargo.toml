[package]
name = "pubkit"
version = "0.1.0"
edition = "2021"
publish = false

[dependencies]
kamadak-exif = "=0.6.1"
serde_json = "=1.0.151"
glob-match = "=0.2.1"
regex = "=1.13.1"
url = "=2.5.8"
markdown-it = "=0.6.1"
markdown-it-footnote = "=0.2.0"
markdown-it-lazyload = "=0.1.1"
keyring = "=4.2.0"
log = "=0.4.34"
env_logger = "=0.11.11"
colored = "=3.1.1"
reqwest = { version = "=0.13.5", default-features = false }
