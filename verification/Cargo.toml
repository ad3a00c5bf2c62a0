[package]
name = "webnovel_epub"
version = "0.1.0"
edition = "2021"
publish = false

[dependencies]
askama = "=0.12.1"
bytes = "=1.12.1"
futures = "=0.3.34"
reqwest = "=0.11.27"
scraper = { version = "=0.17.1", features = ["deterministic"] }
time = { version = "=0.3.55", features = ["formatting", "parsing"] }
tokio = { version = "=1.54.1", features = ["macros", "rt"] }
url = "=2.5.8"
zip = { version = "=0.6.6", default-features = false }
