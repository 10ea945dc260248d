[package]
name = "figure_tracker"
version = "0.1.0"
edition = "2021"
publish = false

[dependencies]
strsim = "=0.11.1"
reqwest = { version = "=0.13.5", default-features = false, features = ["blocking", "gzip"] }
rusqlite = { version = "=0.40.2", features = ["bundled"] }
chrono = "=0.4.45"
serde = { version = "=1.0.229", features = ["derive"] }
serde_json = "=1.0.151"
quick-xml = { version = "=0.42.0", features = ["serialize"] }
yaml-rust = "=0.4.5"
threadpool = "=1.8.1"
regex = "=1.13.1"
log = "=0.4.34"
env_logger = "=0.11.11"
clap = { version = "=4.6.7", features = ["derive"] }
tempfile = "=3.27.0"
frankenstein = { version = "=0.52.1", features = ["client-ureq"] }
scraper = "=0.27.0"
