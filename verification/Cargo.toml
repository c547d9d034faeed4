[package]
name = "aurora"
version = "0.1.0"
edition = "2021"
publish = false

[dependencies]
unicode-width = "*"
html2md = "*"
regex = "*"
glob = "*"
serde = { version = "1", features = ["derive"] }
serde_json = "1"
scraper = "*"
ego-tree = "*"
dirs = "*"
tokio = { version = "1", features = ["full"] }
tokio-util = "*"
futures-util = "*"
reqwest = { version = "*", default-features = false, features = ["json", "stream", "blocking", "rustls-tls"] }
axum = { version = "*", features = ["ws"] }
grep-regex = "*"
grep-searcher = "*"
grep-matcher = "*"
