[package]
name = "frontlane-static"
version = "0.1.0"
edition = "2021"
publish = false

[dependencies]
url = "2"
pathdiff = "0.2"
scraper = "*"
mime_guess = "2"
base64 = "0.22"
html2md = "*"
clap = { version = "4", features = ["derive"] }
spider = { version = "*", default-features = false, features = ["sync", "sitemap"] }
reqwest = { version = "*", features = ["stream"] }
tokio = { version = "1", features = ["full"] }
dashmap = "*"
indicatif = "*"
colored = "*"
tracing = "0.1"
tracing-subscriber = "0.3"
tracing-appender = "0.2"
csv = "1"
futures-util = "0.3"
anyhow = "1"
headless_chrome = { version = "*", default-features = false }
