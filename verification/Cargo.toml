[package]
name = "scroll"
version = "0.1.0"
edition = "2021"
publish = false

[dependencies]
boa_engine = "0.20"
fe2o3-crust = "*"
fe2o3-glow = "*"
regex = "1"
rusqlite = { version = "*", features = ["bundled"] }
scraper = "0.23"
serde = { version = "1", features = ["derive"] }
serde_json = "1"
tokio = { version = "1", features = ["rt", "net", "time"] }
ureq = "2"
url = "2"
