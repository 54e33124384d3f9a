[package]
name = "fda_calendar_scraper"
version = "0.1.0"
edition = "2021"
publish = false

[dependencies]
askama = "*"
chrono = "0.4"
env_logger = "0.11"
lettre = "0.11"
log = "0.4"
native-tls = "0.2"
reqwest = { version = "0.12", default-features = false, features = ["blocking", "native-tls"] }
scraper = "*"
tempfile = "3"
