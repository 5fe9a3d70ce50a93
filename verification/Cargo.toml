[package]
name = "pixiv_downloader"
version = "0.1.0"
edition = "2021"
publish = false

[dependencies]
regex = "=1.13.1"
url = "=2.5.8"
dateparser = "=0.2.1"
chrono = "=0.4.45"
json = "=0.12.4"
serde = { version = "=1.0.229", features = ["derive"] }
serde_json = "=1.0.154"
http-content-range = "0.1"
RustyXML = "0.3"
