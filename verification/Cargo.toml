[package]
name = "website"
version = "0.1.0"
edition = "2021"
publish = false

[dependencies]
ammonia = "=4.2.4"
anyhow = "=1.0.104"
axum = "=0.8.9"
axum-response-cache = "=0.5.0"
clap = { version = "=4.6.7", features = ["derive"] }
dirs = "=7.0.0"
duration-str = "=0.21.0"
heed = "=0.23.0"
hyper = "=1.12.0"
jwalk = "=0.9.0"
notify = "=8.2.1"
notify-debouncer-full = "=0.7.0"
pulldown-cmark = "=0.13.5"
rayon = "=1.12.0"
scraper = "=0.29.0"
serde = { version = "=1.0.229", features = ["derive"] }
serde_json = "=1.0.154"
serde_yaml = "=0.9.34"
thiserror = "=2.0.21"
time = { version = "=0.3.55", features = ["serde", "formatting", "parsing"] }
tokio = { version = "=1.54.1", features = ["full"] }
toml = "=1.1.8"
tower-http = { version = "=0.7.1", features = ["fs", "set-header", "compression-br", "compression-deflate", "compression-gzip"] }
tracing = "=0.1.44"
tracing-appender = "=0.2.5"
tracing-subscriber = { version = "=0.3.23", features = ["env-filter"] }
ulid = { version = "=1.2.1", features = ["serde"] }
walkdir = "=2.5.0"
xxhash-rust = { version = "=0.8.19", features = ["xxh3", "xxh64"] }
